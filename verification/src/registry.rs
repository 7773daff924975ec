//! The output registry: associates already-written result files with a job.
//!
//! The surrounding I/O layer probes each candidate file on disk and hands the
//! probe results in as plain values: a path, a format tag, and the byte size
//! where the file exists.  Registration appends one result entry per existing
//! file, stamps it, persists the record and refreshes the index.  Where no
//! listed file exists at all it fails with `NotFound` and changes nothing —
//! a partial success, by design, since some output formats may legitimately
//! be absent.

use vstd::prelude::*;

use crate::bridge;
use crate::errors::HistoryError;
use crate::models::HistoryView;
use crate::models::ResultView;
use crate::models::TranscriptionHistory;
use crate::models::TranscriptionResult;
use crate::models::completed_from;
use crate::store::HistoryService;
use crate::store::lookup;
use crate::store::lemma_lookup_is_element;
use crate::store::lemma_lookup_upsert;
use crate::store::upsert;

verus! {

/// Probe of one candidate result file: where it would lie, its format tag,
/// and its byte size where the file exists on disk.
#[derive(Debug, PartialEq)]
pub struct ResultProbe {
    pub file_path: String,
    pub format: String,
    pub file_size: Option<u64>,
}

/// Ghost image of a probe.
#[verifier::ext_equal]
pub ghost struct ProbeView {
    pub file_path: Seq<char>,
    pub format: Seq<char>,
    pub file_size: Option<u64>,
}

impl View for ResultProbe {
    type V = ProbeView;

    open spec fn view(&self) -> ProbeView {
        ProbeView {
            file_path: self.file_path@,
            format: self.format@,
            file_size: self.file_size,
        }
    }
}

impl DeepView for ResultProbe {
    type V = ProbeView;

    open spec fn deep_view(&self) -> ProbeView {
        self.view()
    }
}

/// The probes whose file exists, in the order given.
pub open spec fn existing_probes(s: Seq<ProbeView>) -> Seq<ProbeView>
    decreases s.len(),
{
    if s.len() == 0 {
        s
    } else if s.last().file_size is Some {
        existing_probes(s.drop_last()).push(s.last())
    } else {
        existing_probes(s.drop_last())
    }
}

/// The entry records exactly what the probe found, with a parseable
/// registration timestamp.
pub open spec fn entry_from_probe(e: ResultView, p: ProbeView) -> bool {
    &&& e.file_path == p.file_path
    &&& e.format == p.format
    &&& p.file_size == Some(e.file_size)
    &&& bridge::rfc3339_millis(e.created_at) is Some
}

/// The new result list is the old one with one entry appended per existing
/// probe, in probe order.
pub open spec fn results_extended(
    new_results: Seq<ResultView>,
    old_results: Seq<ResultView>,
    probes: Seq<ProbeView>,
) -> bool {
    let ex = existing_probes(probes);
    &&& new_results.len() == old_results.len() + ex.len()
    &&& (forall|k: int| 0 <= k < old_results.len() ==> new_results[k] == old_results[k])
    &&& (forall|k: int|
        0 <= k < ex.len() ==> entry_from_probe(
            #[trigger] new_results[old_results.len() + k],
            ex[k],
        ))
}

/// `n` is `h` with the existing probes registered; everything else unchanged.
pub open spec fn registered_into(n: HistoryView, h: HistoryView, probes: Seq<ProbeView>) -> bool {
    &&& results_extended(n.results, h.results, probes)
    &&& n.id == h.id
    &&& n.original_file_name == h.original_file_name
    &&& n.original_file_path == h.original_file_path
    &&& n.model_used == h.model_used
    &&& n.options_used == h.options_used
    &&& n.status == h.status
    &&& n.created_at == h.created_at
    &&& n.completed_at == h.completed_at
    &&& n.duration_seconds == h.duration_seconds
    &&& n.tags == h.tags
    &&& n.notes == h.notes
    &&& n.error_message == h.error_message
}

/// Some option carries the name.
pub open spec fn has_option_key(opts: Seq<(Seq<char>, Seq<char>)>, key: Seq<char>) -> bool {
    exists|i: int| 0 <= i < opts.len() && (#[trigger] opts[i]).0 == key
}

/// Where a result file of the format would lie for the job.
pub open spec fn result_path_of(results_dir: Seq<char>, id: Seq<char>, fmt: Seq<char>) -> Seq<
    char,
> {
    results_dir + "/"@ + id + "/files/result."@ + fmt
}

/// Whether the engine was asked for the format: its output option is present,
/// or the format is the default subtitle output that every job produces.
pub open spec fn format_selected(
    opts: Seq<(Seq<char>, Seq<char>)>,
    key: Seq<char>,
    fmt: Seq<char>,
) -> bool {
    has_option_key(opts, key) || fmt == "srt"@
}

/// The path/format pair for the format, where it was asked for.
pub open spec fn maybe_result_pair(
    results_dir: Seq<char>,
    id: Seq<char>,
    opts: Seq<(Seq<char>, Seq<char>)>,
    key: Seq<char>,
    fmt: Seq<char>,
) -> Seq<(Seq<char>, Seq<char>)> {
    if format_selected(opts, key, fmt) {
        seq![(result_path_of(results_dir, id, fmt), fmt)]
    } else {
        Seq::empty()
    }
}

/// The candidate result files of one job, in the fixed format order, given
/// the options the job was started with.
pub open spec fn expected_pairs(
    results_dir: Seq<char>,
    id: Seq<char>,
    opts: Seq<(Seq<char>, Seq<char>)>,
) -> Seq<(Seq<char>, Seq<char>)> {
    maybe_result_pair(results_dir, id, opts, "output-txt"@, "txt"@) + maybe_result_pair(
        results_dir,
        id,
        opts,
        "output-srt"@,
        "srt"@,
    ) + maybe_result_pair(results_dir, id, opts, "output-vtt"@, "vtt"@) + maybe_result_pair(
        results_dir,
        id,
        opts,
        "output-csv"@,
        "csv"@,
    ) + maybe_result_pair(results_dir, id, opts, "output-json"@, "json"@) + maybe_result_pair(
        results_dir,
        id,
        opts,
        "output-lrc"@,
        "lrc"@,
    )
}

/// The five non-default format tags differ from the default `srt` tag.
proof fn lemma_formats_distinct()
    ensures
        "txt"@ != "srt"@,
        "vtt"@ != "srt"@,
        "csv"@ != "srt"@,
        "json"@ != "srt"@,
        "lrc"@ != "srt"@,
{
    reveal_strlit("txt");
    reveal_strlit("srt");
    reveal_strlit("vtt");
    reveal_strlit("csv");
    reveal_strlit("json");
    reveal_strlit("lrc");
    assert("txt"@[0] == 't' && "srt"@[0] == 's');
    assert("vtt"@[0] == 'v');
    assert("csv"@[0] == 'c');
    assert("json"@.len() == 4 && "srt"@.len() == 3);
    assert("lrc"@[0] == 'l');
}

/// Decides whether some option carries the name.
fn options_have_key(options: &Vec<(String, String)>, key: &str) -> (r: bool)
    ensures
        r == has_option_key(options.deep_view(), key@),
{
    let mut i: usize = 0;
    while i < options.len()
        invariant
            i <= options.len(),
            forall|j: int| 0 <= j < i ==> (#[trigger] options.deep_view()[j]).0 != key@,
        decreases options.len() - i,
    {
        if crate::strutil::str_eq(options[i].0.as_str(), key) {
            proof {
                assert(options.deep_view()[i as int].0 == key@);
            }
            return true;
        }
        i = i + 1;
    }
    false
}

/// Saving twice under one id keeps only the second record.
pub proof fn lemma_upsert_twice(s: Seq<HistoryView>, a: HistoryView, b: HistoryView)
    requires
        a.id == b.id,
    ensures
        upsert(upsert(s, a), b) == upsert(s, b),
    decreases s.len(),
{
    if s.len() == 0 {
        assert(upsert(upsert(s, a), b) =~= upsert(s, b));
    } else if s[0].id == a.id {
        assert(upsert(s, a) == seq![a] + s.drop_first());
        assert((seq![a] + s.drop_first())[0] == a);
        assert((seq![a] + s.drop_first()).drop_first() =~= s.drop_first());
        assert(upsert(upsert(s, a), b) =~= upsert(s, b));
    } else {
        assert(upsert(s, a) == seq![s[0]] + upsert(s.drop_first(), a));
        assert((seq![s[0]] + upsert(s.drop_first(), a))[0] == s[0]);
        assert((seq![s[0]] + upsert(s.drop_first(), a)).drop_first() =~= upsert(
            s.drop_first(),
            a,
        ));
        lemma_upsert_twice(s.drop_first(), a, b);
    }
}

impl HistoryService {
    /// Registers the listed files that exist against the job's record, without
    /// touching its status: appends one stamped result entry per existing
    /// file, persists the record and refreshes the index.  Fails with
    /// `NotFound` — and changes nothing — where the job id is unknown or no
    /// listed file exists.
    pub fn register_existing_results(
        &mut self,
        history_id: &str,
        result_files: Vec<ResultProbe>,
    ) -> (r: Result<TranscriptionHistory, HistoryError>)
        requires
            old(self).wf(),
        ensures
            final(self).wf(),
            final(self).same_paths(*old(self)),
            lookup(old(self).records_view(), history_id@) is None ==> r == Err::<
                TranscriptionHistory,
                HistoryError,
            >(HistoryError::NotFound) && *final(self) == *old(self),
            lookup(old(self).records_view(), history_id@) is Some && existing_probes(
                result_files.deep_view(),
            ).len() == 0 ==> r == Err::<TranscriptionHistory, HistoryError>(HistoryError::NotFound)
                && *final(self) == *old(self),
            lookup(old(self).records_view(), history_id@) is Some && existing_probes(
                result_files.deep_view(),
            ).len() > 0 ==> r is Ok && registered_into(
                r->Ok_0@,
                lookup(old(self).records_view(), history_id@)->0,
                result_files.deep_view(),
            ) && final(self).records_view() == upsert(old(self).records_view(), r->Ok_0@)
                && final(self).index_view() == upsert(old(self).index_view(), r->Ok_0@),
    {
        let loaded = match self.load_history_metadata(history_id) {
            Ok(h) => h,
            Err(e) => {
                return Err(e);
            },
        };
        let ghost h0 = loaded@;
        let mut history = loaded;
        let mut registered: usize = 0;
        let mut i: usize = 0;
        while i < result_files.len()
            invariant
                i <= result_files.len(),
                registered == existing_probes(result_files.deep_view().take(i as int)).len(),
                registered <= i,
                history@.results.len() == h0.results.len() + registered,
                results_extended(
                    history@.results,
                    h0.results,
                    result_files.deep_view().take(i as int),
                ),
                history@.id == h0.id,
                history@.original_file_name == h0.original_file_name,
                history@.original_file_path == h0.original_file_path,
                history@.model_used == h0.model_used,
                history@.options_used == h0.options_used,
                history@.status == h0.status,
                history@.created_at == h0.created_at,
                history@.completed_at == h0.completed_at,
                history@.duration_seconds == h0.duration_seconds,
                history@.tags == h0.tags,
                history@.notes == h0.notes,
                history@.error_message == h0.error_message,
            decreases result_files.len() - i,
        {
            let ghost pv = result_files.deep_view();
            proof {
                assert(pv.take(i as int + 1).drop_last() =~= pv.take(i as int));
                assert(pv.take(i as int + 1).last() == pv[i as int]);
            }
            if result_files[i].file_size.is_some() {
                let size = match result_files[i].file_size {
                    Some(s) => s,
                    None => 0,
                };
                let (stamp, _stamp_ms) = bridge::now_rfc3339();
                let entry = TranscriptionResult {
                    file_path: result_files[i].file_path.clone(),
                    format: result_files[i].format.clone(),
                    file_size: size,
                    created_at: stamp,
                };
                proof {
                    assert(entry_from_probe(entry@, pv[i as int]));
                }
                history = history.add_result(entry);
                registered = registered + 1;
            }
            i = i + 1;
        }
        proof {
            assert(result_files.deep_view().take(result_files@.len() as int)
                =~= result_files.deep_view());
        }
        if registered == 0 {
            return Err(HistoryError::NotFound);
        }
        proof {
            lemma_lookup_is_element(old(self).records_view(), history_id@);
            let m = choose|m: int|
                0 <= m < old(self).records_view().len() && old(self).records_view()[m] == lookup(
                    old(self).records_view(),
                    history_id@,
                )->0;
            assert(old(self).records_view()[m].well_formed());
            assert(history@.well_formed());
        }
        self.save_history_metadata(&history);
        self.update_history_index(&history);
        Ok(history)
    }

    /// The candidate result files to probe for one job, given the options it
    /// was started with: one per selected output format, plus the default
    /// subtitle output.
    pub fn expected_result_files(&self, history_id: &str, options: &Vec<(String, String)>) -> (r:
        Vec<(String, String)>)
        ensures
            r.deep_view() == expected_pairs(self.results_dir@, history_id@, options.deep_view()),
    {
        proof {
            lemma_formats_distinct();
        }
        let ghost rd = self.results_dir@;
        let ghost id = history_id@;
        let ghost opts = options.deep_view();
        let mut out: Vec<(String, String)> = Vec::new();
        let ghost s1 = maybe_result_pair(rd, id, opts, "output-txt"@, "txt"@);
        if options_have_key(options, "output-txt") {
            out.push((self.get_result_file_path(history_id, "txt"), String::from_str("txt")));
        }
        proof {
            assert(out.deep_view() =~~= s1);
        }
        out.push((self.get_result_file_path(history_id, "srt"), String::from_str("srt")));
        let ghost s2 = s1 + maybe_result_pair(rd, id, opts, "output-srt"@, "srt"@);
        proof {
            assert(out.deep_view() =~~= s2);
        }
        if options_have_key(options, "output-vtt") {
            out.push((self.get_result_file_path(history_id, "vtt"), String::from_str("vtt")));
        }
        let ghost s3 = s2 + maybe_result_pair(rd, id, opts, "output-vtt"@, "vtt"@);
        proof {
            assert(out.deep_view() =~~= s3);
        }
        if options_have_key(options, "output-csv") {
            out.push((self.get_result_file_path(history_id, "csv"), String::from_str("csv")));
        }
        let ghost s4 = s3 + maybe_result_pair(rd, id, opts, "output-csv"@, "csv"@);
        proof {
            assert(out.deep_view() =~~= s4);
        }
        if options_have_key(options, "output-json") {
            out.push((self.get_result_file_path(history_id, "json"), String::from_str("json")));
        }
        let ghost s5 = s4 + maybe_result_pair(rd, id, opts, "output-json"@, "json"@);
        proof {
            assert(out.deep_view() =~~= s5);
        }
        if options_have_key(options, "output-lrc") {
            out.push((self.get_result_file_path(history_id, "lrc"), String::from_str("lrc")));
        }
        proof {
            assert(out.deep_view() =~~= expected_pairs(rd, id, opts));
        }
        out
    }

    /// Registers the produced files and then moves the job to `Completed`.
    /// Fails with `NotFound` — and changes nothing — where the job id is
    /// unknown or no listed file exists.
    pub fn add_transcription_results(
        &mut self,
        history_id: &str,
        result_files: Vec<ResultProbe>,
    ) -> (r: Result<TranscriptionHistory, HistoryError>)
        requires
            old(self).wf(),
        ensures
            final(self).wf(),
            final(self).same_paths(*old(self)),
            lookup(old(self).records_view(), history_id@) is None || existing_probes(
                result_files.deep_view(),
            ).len() == 0 ==> r == Err::<TranscriptionHistory, HistoryError>(HistoryError::NotFound)
                && *final(self) == *old(self),
            lookup(old(self).records_view(), history_id@) is Some && existing_probes(
                result_files.deep_view(),
            ).len() > 0 ==> r is Ok && (exists|mid: HistoryView|
                registered_into(
                    mid,
                    lookup(old(self).records_view(), history_id@)->0,
                    result_files.deep_view(),
                ) && completed_from(r->Ok_0@, mid)) && final(self).records_view() == upsert(
                old(self).records_view(),
                r->Ok_0@,
            ) && final(self).index_view() == upsert(old(self).index_view(), r->Ok_0@),
    {
        let ghost pv = result_files.deep_view();
        let registered = match self.register_existing_results(history_id, result_files) {
            Ok(h) => h,
            Err(e) => {
                return Err(e);
            },
        };
        proof {
            lemma_lookup_upsert(old(self).records_view(), registered@);
        }
        let completed = match self.mark_history_completed(registered.id.as_str()) {
            Ok(h) => h,
            Err(e) => {
                return Err(e);
            },
        };
        proof {
            lemma_upsert_twice(old(self).records_view(), registered@, completed@);
            lemma_upsert_twice(old(self).index_view(), registered@, completed@);
            assert(registered_into(
                registered@,
                lookup(old(self).records_view(), history_id@)->0,
                pv,
            ) && completed_from(completed@, registered@));
        }
        Ok(completed)
    }
}

} // verus!
