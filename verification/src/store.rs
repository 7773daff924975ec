//! The job record store.
//!
//! `HistoryService` owns every job record: a sequence of per-job metadata
//! records (the source of truth) and a denormalized index used for fast
//! listing.  Records are addressed by id; saving either replaces the first
//! record with the same id or appends, deleting removes every record with the
//! id, and the convenience mutators load, transition and save in one step.
//! The surrounding persistence layer mirrors `records` into one metadata file
//! per job and `index` into a single index file under the paths this type
//! derives.

use vstd::prelude::*;

use crate::errors::HistoryError;
use crate::models::HistoryView;
use crate::models::TranscriptionHistory;
use crate::models::completed_from;
use crate::models::failed_from;
use crate::models::new_record;
use crate::strutil;

verus! {

/// The first record carrying `id`, if any.
pub open spec fn lookup(s: Seq<HistoryView>, id: Seq<char>) -> Option<HistoryView>
    decreases s.len(),
{
    if s.len() == 0 {
        None
    } else if s[0].id == id {
        Some(s[0])
    } else {
        lookup(s.drop_first(), id)
    }
}

/// `s` with the first record carrying `h.id` replaced by `h`, or with `h`
/// appended where no record carries it.
pub open spec fn upsert(s: Seq<HistoryView>, h: HistoryView) -> Seq<HistoryView>
    decreases s.len(),
{
    if s.len() == 0 {
        seq![h]
    } else if s[0].id == h.id {
        seq![h] + s.drop_first()
    } else {
        seq![s[0]] + upsert(s.drop_first(), h)
    }
}

/// `s` without the records carrying `id`, order preserved.
pub open spec fn remove_id(s: Seq<HistoryView>, id: Seq<char>) -> Seq<HistoryView>
    decreases s.len(),
{
    if s.len() == 0 {
        s
    } else if s.last().id == id {
        remove_id(s.drop_last(), id)
    } else {
        remove_id(s.drop_last(), id).push(s.last())
    }
}

/// No two records carry the same id.
pub open spec fn unique_ids(s: Seq<HistoryView>) -> bool {
    forall|i: int, j: int|
        0 <= i < j < s.len() ==> (#[trigger] s[i]).id != (#[trigger] s[j]).id
}

/// Every record is internally consistent.
pub open spec fn all_well_formed(s: Seq<HistoryView>) -> bool {
    forall|i: int| 0 <= i < s.len() ==> (#[trigger] s[i]).well_formed()
}

/// Where the first match stands at `i`, `lookup` returns it.
pub proof fn lemma_lookup_first(s: Seq<HistoryView>, id: Seq<char>, i: int)
    requires
        0 <= i < s.len(),
        s[i].id == id,
        forall|j: int| 0 <= j < i ==> s[j].id != id,
    ensures
        lookup(s, id) == Some(s[i]),
    decreases i,
{
    if i > 0 {
        lemma_lookup_first(s.drop_first(), id, i - 1);
    }
}

/// `lookup` misses exactly where no record carries the id.
pub proof fn lemma_lookup_none_iff(s: Seq<HistoryView>, id: Seq<char>)
    ensures
        lookup(s, id) is None <==> (forall|j: int| 0 <= j < s.len() ==> s[j].id != id),
    decreases s.len(),
{
    if s.len() > 0 {
        lemma_lookup_none_iff(s.drop_first(), id);
        assert(forall|j: int| 1 <= j < s.len() ==> #[trigger] s[j] == s.drop_first()[j - 1]);
    }
}

/// A found record is one of the sequence's elements, so the store invariant
/// applies to it.
pub proof fn lemma_lookup_is_element(s: Seq<HistoryView>, id: Seq<char>)
    ensures
        lookup(s, id) is Some ==> exists|m: int| 0 <= m < s.len() && s[m] == lookup(s, id)->0,
    decreases s.len(),
{
    if s.len() > 0 && s[0].id != id {
        lemma_lookup_is_element(s.drop_first(), id);
        if lookup(s.drop_first(), id) is Some {
            let m = choose|m: int|
                0 <= m < s.drop_first().len() && s.drop_first()[m] == lookup(s.drop_first(), id)->0;
            assert(s[m + 1] == s.drop_first()[m]);
        }
    }
}

/// Where the first match stands at `i`, `upsert` is an update in place.
pub proof fn lemma_upsert_update(s: Seq<HistoryView>, h: HistoryView, i: int)
    requires
        0 <= i < s.len(),
        s[i].id == h.id,
        forall|j: int| 0 <= j < i ==> s[j].id != h.id,
    ensures
        upsert(s, h) == s.update(i, h),
    decreases i,
{
    if i == 0 {
        assert(upsert(s, h) =~= s.update(0, h));
    } else {
        lemma_upsert_update(s.drop_first(), h, i - 1);
        assert(seq![s[0]] + s.drop_first().update(i - 1, h) =~= s.update(i, h));
    }
}

/// Where no record carries `h.id`, `upsert` appends.
pub proof fn lemma_upsert_push(s: Seq<HistoryView>, h: HistoryView)
    requires
        forall|j: int| 0 <= j < s.len() ==> s[j].id != h.id,
    ensures
        upsert(s, h) == s.push(h),
    decreases s.len(),
{
    if s.len() == 0 {
        assert(upsert(s, h) =~= s.push(h));
    } else {
        lemma_upsert_push(s.drop_first(), h);
        assert(seq![s[0]] + s.drop_first().push(h) =~= s.push(h));
    }
}

/// A record just saved is found again under its id.
pub proof fn lemma_lookup_upsert(s: Seq<HistoryView>, h: HistoryView)
    ensures
        lookup(upsert(s, h), h.id) == Some(h),
    decreases s.len(),
{
    if s.len() == 0 {
    } else if s[0].id == h.id {
        assert((seq![h] + s.drop_first())[0] == h);
    } else {
        lemma_lookup_upsert(s.drop_first(), h);
        assert((seq![s[0]] + upsert(s.drop_first(), h)).drop_first() =~= upsert(
            s.drop_first(),
            h,
        ));
    }
}

/// Nothing left by a deletion carries the deleted id.
pub proof fn lemma_remove_id_elements(s: Seq<HistoryView>, id: Seq<char>)
    ensures
        forall|k: int|
            0 <= k < remove_id(s, id).len() ==> (#[trigger] remove_id(s, id)[k]).id != id,
    decreases s.len(),
{
    if s.len() > 0 {
        lemma_remove_id_elements(s.drop_last(), id);
    }
}

/// A deleted id is not found any more.
pub proof fn lemma_lookup_remove_id(s: Seq<HistoryView>, id: Seq<char>)
    ensures
        lookup(remove_id(s, id), id) is None,
{
    lemma_remove_id_elements(s, id);
    lemma_lookup_none_iff(remove_id(s, id), id);
}

/// Durable storage for job records, with its on-disk layout parameters.
pub struct HistoryService {
    pub whisper_gui_dir: String,
    pub results_dir: String,
    pub history_index_file: String,
    pub records: Vec<TranscriptionHistory>,
    pub index: Vec<TranscriptionHistory>,
}

impl HistoryService {
    /// The record sequence the store holds, as views.
    pub open spec fn records_view(self) -> Seq<HistoryView> {
        self.records.deep_view()
    }

    /// The index sequence the store holds, as views.
    pub open spec fn index_view(self) -> Seq<HistoryView> {
        self.index.deep_view()
    }

    /// Store invariant: ids are unique and every record is consistent, in the
    /// records and in the index alike.
    pub open spec fn wf(self) -> bool {
        &&& unique_ids(self.records_view())
        &&& all_well_formed(self.records_view())
        &&& unique_ids(self.index_view())
        &&& all_well_formed(self.index_view())
    }

    /// The store's paths are unchanged by a mutation.
    pub open spec fn same_paths(self, other: Self) -> bool {
        &&& self.whisper_gui_dir == other.whisper_gui_dir
        &&& self.results_dir == other.results_dir
        &&& self.history_index_file == other.history_index_file
    }

    /// Builds an empty store rooted under the given application data
    /// directory.
    pub fn new(base_dir: &str) -> (r: Self)
        ensures
            r.whisper_gui_dir@ == base_dir@ + "/.whisper-gui"@,
            r.results_dir@ == base_dir@ + "/.whisper-gui/results"@,
            r.history_index_file@ == base_dir@ + "/.whisper-gui/history.json"@,
            r.records_view() == Seq::<HistoryView>::empty(),
            r.index_view() == Seq::<HistoryView>::empty(),
            r.wf(),
    {
        let whisper_gui_dir = strutil::str_concat(base_dir, "/.whisper-gui");
        let results_dir = strutil::str_concat(base_dir, "/.whisper-gui/results");
        let history_index_file = strutil::str_concat(base_dir, "/.whisper-gui/history.json");
        let r = HistoryService {
            whisper_gui_dir,
            results_dir,
            history_index_file,
            records: Vec::new(),
            index: Vec::new(),
        };
        proof {
            assert(r.records_view() =~= Seq::<HistoryView>::empty());
            assert(r.index_view() =~= Seq::<HistoryView>::empty());
        }
        r
    }

    /// Directory under which one job's files and metadata live; derived from
    /// the id alone.
    pub fn get_history_directory(&self, history_id: &str) -> (r: String)
        ensures
            r@ == self.results_dir@ + "/"@ + history_id@,
    {
        let d = strutil::str_concat(self.results_dir.as_str(), "/");
        let r = strutil::str_concat(d.as_str(), history_id);
        proof {
            assert(r@ =~= self.results_dir@ + "/"@ + history_id@);
        }
        r
    }

    /// Path of one result file of one job, named by its format.
    pub fn get_result_file_path(&self, history_id: &str, format: &str) -> (r: String)
        ensures
            r@ == self.results_dir@ + "/"@ + history_id@ + "/files/result."@ + format@,
    {
        let d = self.get_history_directory(history_id);
        let p = strutil::str_concat(d.as_str(), "/files/result.");
        let r = strutil::str_concat(p.as_str(), format);
        proof {
            assert(r@ =~= self.results_dir@ + "/"@ + history_id@ + "/files/result."@ + format@);
        }
        r
    }

    /// Path of one job's metadata file.
    pub fn get_metadata_file_path(&self, history_id: &str) -> (r: String)
        ensures
            r@ == self.results_dir@ + "/"@ + history_id@ + "/metadata.json"@,
    {
        let d = self.get_history_directory(history_id);
        let r = strutil::str_concat(d.as_str(), "/metadata.json");
        proof {
            assert(r@ =~= self.results_dir@ + "/"@ + history_id@ + "/metadata.json"@);
        }
        r
    }

    /// Saves one record among the per-job metadata records: replaces the
    /// record with the same id or appends.
    pub fn save_history_metadata(&mut self, history: &TranscriptionHistory)
        requires
            old(self).wf(),
            history@.well_formed(),
        ensures
            final(self).wf(),
            final(self).records_view() == upsert(old(self).records_view(), history@),
            final(self).index_view() == old(self).index_view(),
            final(self).same_paths(*old(self)),
    {
        upsert_vec(&mut self.records, history);
    }

    /// Returns the record stored under the id, or `NotFound`.
    pub fn load_history_metadata(&self, history_id: &str) -> (r: Result<
        TranscriptionHistory,
        HistoryError,
    >)
        ensures
            lookup(self.records_view(), history_id@) is Some ==> r is Ok && r->Ok_0@ == lookup(
                self.records_view(),
                history_id@,
            )->0,
            lookup(self.records_view(), history_id@) is None ==> r == Err::<
                TranscriptionHistory,
                HistoryError,
            >(HistoryError::NotFound),
    {
        let mut i: usize = 0;
        while i < self.records.len()
            invariant
                i <= self.records.len(),
                forall|j: int| 0 <= j < i ==> (#[trigger] self.records_view()[j]).id
                    != history_id@,
            decreases self.records.len() - i,
        {
            if strutil::str_eq(self.records[i].id.as_str(), history_id) {
                proof {
                    lemma_lookup_first(self.records_view(), history_id@, i as int);
                }
                return Ok(self.records[i].clone());
            }
            i = i + 1;
        }
        proof {
            lemma_lookup_none_iff(self.records_view(), history_id@);
        }
        Err(HistoryError::NotFound)
    }

    /// Keeps the index entry for the record up to date: replaces or inserts,
    /// matched by id.
    pub fn update_history_index(&mut self, history: &TranscriptionHistory)
        requires
            old(self).wf(),
            history@.well_formed(),
        ensures
            final(self).wf(),
            final(self).index_view() == upsert(old(self).index_view(), history@),
            final(self).records_view() == old(self).records_view(),
            final(self).same_paths(*old(self)),
    {
        upsert_vec(&mut self.index, history);
    }

    /// The full index, newest insertions last.
    pub fn load_history_index(&self) -> (r: Vec<TranscriptionHistory>)
        ensures
            r.deep_view() == self.index_view(),
    {
        clone_history_vec(&self.index)
    }

    /// Creates a new job record in `Running` status, stores it and indexes it.
    pub fn create_history_entry(
        &mut self,
        original_file_name: String,
        original_file_path: String,
        model_used: String,
        options_used: Vec<(String, String)>,
    ) -> (r: TranscriptionHistory)
        requires
            old(self).wf(),
        ensures
            final(self).wf(),
            new_record(
                r@,
                original_file_name@,
                original_file_path@,
                model_used@,
                options_used.deep_view(),
            ),
            final(self).records_view() == upsert(old(self).records_view(), r@),
            final(self).index_view() == upsert(old(self).index_view(), r@),
            final(self).same_paths(*old(self)),
    {
        let history = TranscriptionHistory::new(
            original_file_name,
            original_file_path,
            model_used,
            options_used,
        );
        self.save_history_metadata(&history);
        self.update_history_index(&history);
        history
    }

    /// Deletes every trace of the id: the metadata record and the index entry.
    /// Deleting an unknown id is a no-op.
    pub fn delete_history(&mut self, history_id: &str)
        requires
            old(self).wf(),
        ensures
            final(self).wf(),
            final(self).records_view() == remove_id(old(self).records_view(), history_id@),
            final(self).index_view() == remove_id(old(self).index_view(), history_id@),
            final(self).same_paths(*old(self)),
    {
        remove_vec(&mut self.records, history_id);
        remove_vec(&mut self.index, history_id);
    }

    /// Returns the record stored under the id, or `NotFound`.
    pub fn get_history(&self, history_id: &str) -> (r: Result<TranscriptionHistory, HistoryError>)
        ensures
            lookup(self.records_view(), history_id@) is Some ==> r is Ok && r->Ok_0@ == lookup(
                self.records_view(),
                history_id@,
            )->0,
            lookup(self.records_view(), history_id@) is None ==> r == Err::<
                TranscriptionHistory,
                HistoryError,
            >(HistoryError::NotFound),
    {
        self.load_history_metadata(history_id)
    }

    /// Loads the record, moves it to `Completed` and saves it; `NotFound` where
    /// the id is unknown.
    pub fn mark_history_completed(&mut self, history_id: &str) -> (r: Result<
        TranscriptionHistory,
        HistoryError,
    >)
        requires
            old(self).wf(),
        ensures
            final(self).wf(),
            final(self).same_paths(*old(self)),
            lookup(old(self).records_view(), history_id@) is None ==> r == Err::<
                TranscriptionHistory,
                HistoryError,
            >(HistoryError::NotFound) && *final(self) == *old(self),
            lookup(old(self).records_view(), history_id@) is Some ==> r is Ok && completed_from(
                r->Ok_0@,
                lookup(old(self).records_view(), history_id@)->0,
            ) && final(self).records_view() == upsert(old(self).records_view(), r->Ok_0@)
                && final(self).index_view() == upsert(old(self).index_view(), r->Ok_0@),
    {
        let history = match self.load_history_metadata(history_id) {
            Ok(h) => h,
            Err(e) => {
                return Err(e);
            },
        };
        let completed = history.mark_completed();
        proof {
            assert(completed@.well_formed());
        }
        self.save_history_metadata(&completed);
        self.update_history_index(&completed);
        Ok(completed)
    }

    /// Loads the record, moves it to `Failed` with the message and saves it;
    /// `NotFound` where the id is unknown.
    pub fn mark_history_failed(&mut self, history_id: &str, error_message: String) -> (r: Result<
        TranscriptionHistory,
        HistoryError,
    >)
        requires
            old(self).wf(),
        ensures
            final(self).wf(),
            final(self).same_paths(*old(self)),
            lookup(old(self).records_view(), history_id@) is None ==> r == Err::<
                TranscriptionHistory,
                HistoryError,
            >(HistoryError::NotFound) && *final(self) == *old(self),
            lookup(old(self).records_view(), history_id@) is Some ==> r is Ok && failed_from(
                r->Ok_0@,
                lookup(old(self).records_view(), history_id@)->0,
                error_message@,
            ) && final(self).records_view() == upsert(old(self).records_view(), r->Ok_0@)
                && final(self).index_view() == upsert(old(self).index_view(), r->Ok_0@),
    {
        let history = match self.load_history_metadata(history_id) {
            Ok(h) => h,
            Err(e) => {
                return Err(e);
            },
        };
        let failed = history.mark_failed(error_message);
        self.save_history_metadata(&failed);
        self.update_history_index(&failed);
        Ok(failed)
    }

    /// Replaces the record's tags and saves it; `NotFound` where the id is
    /// unknown.
    pub fn update_history_tags(&mut self, history_id: &str, tags: Vec<String>) -> (r: Result<
        TranscriptionHistory,
        HistoryError,
    >)
        requires
            old(self).wf(),
        ensures
            final(self).wf(),
            final(self).same_paths(*old(self)),
            lookup(old(self).records_view(), history_id@) is None ==> r == Err::<
                TranscriptionHistory,
                HistoryError,
            >(HistoryError::NotFound) && *final(self) == *old(self),
            lookup(old(self).records_view(), history_id@) is Some ==> r is Ok && r->Ok_0@ == (
            HistoryView { tags: tags.deep_view(), ..lookup(old(self).records_view(), history_id@)->0 }
            ) && final(self).records_view() == upsert(old(self).records_view(), r->Ok_0@)
                && final(self).index_view() == upsert(old(self).index_view(), r->Ok_0@),
    {
        let mut history = match self.load_history_metadata(history_id) {
            Ok(h) => h,
            Err(e) => {
                return Err(e);
            },
        };
        proof {
            lemma_lookup_is_element(old(self).records_view(), history_id@);
            let m = choose|m: int|
                0 <= m < old(self).records_view().len() && old(self).records_view()[m] == lookup(
                    old(self).records_view(),
                    history_id@,
                )->0;
            assert(old(self).records_view()[m].well_formed());
        }
        history.tags = tags;
        self.save_history_metadata(&history);
        self.update_history_index(&history);
        Ok(history)
    }

    /// Replaces the record's notes and saves it; `NotFound` where the id is
    /// unknown.
    pub fn update_history_notes(&mut self, history_id: &str, notes: Option<String>) -> (r: Result<
        TranscriptionHistory,
        HistoryError,
    >)
        requires
            old(self).wf(),
        ensures
            final(self).wf(),
            final(self).same_paths(*old(self)),
            lookup(old(self).records_view(), history_id@) is None ==> r == Err::<
                TranscriptionHistory,
                HistoryError,
            >(HistoryError::NotFound) && *final(self) == *old(self),
            lookup(old(self).records_view(), history_id@) is Some ==> r is Ok && r->Ok_0@ == (
            HistoryView {
                notes: notes.deep_view(),
                ..lookup(old(self).records_view(), history_id@)->0
            }) && final(self).records_view() == upsert(old(self).records_view(), r->Ok_0@)
                && final(self).index_view() == upsert(old(self).index_view(), r->Ok_0@),
    {
        let mut history = match self.load_history_metadata(history_id) {
            Ok(h) => h,
            Err(e) => {
                return Err(e);
            },
        };
        proof {
            lemma_lookup_is_element(old(self).records_view(), history_id@);
            let m = choose|m: int|
                0 <= m < old(self).records_view().len() && old(self).records_view()[m] == lookup(
                    old(self).records_view(),
                    history_id@,
                )->0;
            assert(old(self).records_view()[m].well_formed());
        }
        history.notes = notes;
        self.save_history_metadata(&history);
        self.update_history_index(&history);
        Ok(history)
    }
}

/// Copies a vector of records; the copy holds records with equal views.
pub fn clone_history_vec(v: &Vec<TranscriptionHistory>) -> (r: Vec<TranscriptionHistory>)
    ensures
        r.deep_view() == v.deep_view(),
{
    let mut out: Vec<TranscriptionHistory> = Vec::new();
    let mut i: usize = 0;
    while i < v.len()
        invariant
            i <= v.len(),
            out@.len() == i,
            forall|j: int| 0 <= j < i ==> (#[trigger] out@[j])@ == v@[j]@,
        decreases v.len() - i,
    {
        out.push(v[i].clone());
        i = i + 1;
    }
    proof {
        assert(out.deep_view() =~= v.deep_view());
    }
    out
}

/// Replaces the first record with `history`'s id, or appends `history`.
fn upsert_vec(v: &mut Vec<TranscriptionHistory>, history: &TranscriptionHistory)
    requires
        unique_ids(old(v).deep_view()),
        all_well_formed(old(v).deep_view()),
        history@.well_formed(),
    ensures
        final(v).deep_view() == upsert(old(v).deep_view(), history@),
        unique_ids(final(v).deep_view()),
        all_well_formed(final(v).deep_view()),
{
    let mut i: usize = 0;
    while i < v.len()
        invariant
            i <= v.len(),
            v@ == old(v)@,
            unique_ids(old(v).deep_view()),
            all_well_formed(old(v).deep_view()),
            history@.well_formed(),
            forall|j: int| 0 <= j < i ==> (#[trigger] old(v).deep_view()[j]).id != history@.id,
        decreases v.len() - i,
    {
        if strutil::str_eq(v[i].id.as_str(), history.id.as_str()) {
            let h = history.clone();
            v[i] = h;
            proof {
                lemma_upsert_update(old(v).deep_view(), history@, i as int);
                assert(v.deep_view() =~= old(v).deep_view().update(i as int, history@));
                let dv = v.deep_view();
                let odv = old(v).deep_view();
                assert forall|a: int, b: int| 0 <= a < b < dv.len() implies (#[trigger] dv[a]).id
                    != (#[trigger] dv[b]).id by {
                    assert(odv[a].id != odv[b].id);
                    assert(a == i as int ==> dv[a].id == odv[a].id);
                    assert(b == i as int ==> dv[b].id == odv[b].id);
                };
                assert forall|k: int| 0 <= k < dv.len() implies (#[trigger] dv[k]).well_formed()
                    by {
                    assert(odv[k].well_formed());
                };
            }
            return;
        }
        i = i + 1;
    }
    v.push(history.clone());
    proof {
        lemma_upsert_push(old(v).deep_view(), history@);
        assert(v.deep_view() =~= old(v).deep_view().push(history@));
    }
}

/// Drops every record with the id, keeping the order of the rest.
fn remove_vec(v: &mut Vec<TranscriptionHistory>, id: &str)
    requires
        unique_ids(old(v).deep_view()),
        all_well_formed(old(v).deep_view()),
    ensures
        final(v).deep_view() == remove_id(old(v).deep_view(), id@),
        unique_ids(final(v).deep_view()),
        all_well_formed(final(v).deep_view()),
{
    let mut out: Vec<TranscriptionHistory> = Vec::new();
    let mut i: usize = 0;
    while i < v.len()
        invariant
            i <= v.len(),
            v@ == old(v)@,
            unique_ids(old(v).deep_view()),
            all_well_formed(old(v).deep_view()),
            out.deep_view() == remove_id(old(v).deep_view().take(i as int), id@),
        decreases v.len() - i,
    {
        let ghost pre = out.deep_view();
        let keep = !strutil::str_eq(v[i].id.as_str(), id);
        if keep {
            out.push(v[i].clone());
        }
        proof {
            let dv = old(v).deep_view();
            assert(dv.take(i as int + 1).drop_last() =~= dv.take(i as int));
            assert(dv.take(i as int + 1).last() == dv[i as int]);
            if keep {
                assert(out.deep_view() =~= pre.push(dv[i as int]));
            }
        }
        i = i + 1;
    }
    proof {
        assert(old(v).deep_view().take(v@.len() as int) =~= old(v).deep_view());
        lemma_remove_id_structure(old(v).deep_view(), id@);
        lemma_remove_id_unique(old(v).deep_view(), id@);
    }
    *v = out;
}

/// Every record left by a deletion stems from the original sequence, so
/// consistency of the records carries over.
proof fn lemma_remove_id_structure(s: Seq<HistoryView>, id: Seq<char>)
    ensures
        forall|k: int|
            0 <= k < remove_id(s, id).len() ==> exists|m: int|
                0 <= m < s.len() && s[m] == (#[trigger] remove_id(s, id)[k]),
        all_well_formed(s) ==> all_well_formed(remove_id(s, id)),
    decreases s.len(),
{
    if s.len() > 0 {
        lemma_remove_id_structure(s.drop_last(), id);
        assert(forall|m: int| 0 <= m < s.drop_last().len() ==> #[trigger] s.drop_last()[m]
            == s[m]);
        let r = remove_id(s, id);
        let r0 = remove_id(s.drop_last(), id);
        assert forall|k: int| 0 <= k < r.len() implies exists|m: int|
            0 <= m < s.len() && s[m] == (#[trigger] r[k]) by {
            if s.last().id == id || k < r0.len() {
                let m = choose|m: int|
                    0 <= m < s.drop_last().len() && s.drop_last()[m] == r0[k];
                assert(s[m] == r[k]);
            } else {
                assert(r[k] == s.last());
                assert(s[s.len() - 1] == r[k]);
            }
        };
        if all_well_formed(s) {
            assert forall|k: int| 0 <= k < r.len() implies (#[trigger] r[k]).well_formed() by {
                let m = choose|m: int| 0 <= m < s.len() && s[m] == r[k];
                assert(s[m].well_formed());
            };
        }
    }
}

/// Deletion keeps ids pairwise distinct.
proof fn lemma_remove_id_unique(s: Seq<HistoryView>, id: Seq<char>)
    requires
        unique_ids(s),
    ensures
        unique_ids(remove_id(s, id)),
    decreases s.len(),
{
    if s.len() > 0 {
        assert(forall|m: int| 0 <= m < s.drop_last().len() ==> s.drop_last()[m] == s[m]);
        assert(unique_ids(s.drop_last()));
        lemma_remove_id_unique(s.drop_last(), id);
        if s.last().id != id {
            let r0 = remove_id(s.drop_last(), id);
            lemma_remove_id_structure(s.drop_last(), id);
            assert forall|k: int| 0 <= k < r0.len() implies (#[trigger] r0[k]).id != s.last().id
                by {
                let m = choose|m: int| 0 <= m < s.drop_last().len() && s.drop_last()[m] == r0[k];
                assert(s[m] == r0[k]);
                assert(s[m].id != s[s.len() - 1].id);
            };
            assert(remove_id(s, id) == r0.push(s.last()));
            assert(forall|k: int| 0 <= k < r0.len() ==> r0.push(s.last())[k] == r0[k]);
            assert(r0.push(s.last())[r0.len() as int] == s.last());
        }
    }
}

} // verus!
