//! The data model: job records, result entries, queries and events.
//!
//! A `TranscriptionHistory` record describes one transcription attempt.  It is
//! created in `Running` status and later moved exactly once to `Completed` or
//! `Failed`; result entries are only ever appended; tags and notes stay freely
//! editable.  Each exec type has a ghost view over which every contract in the
//! crate is stated.

use vstd::prelude::*;

use crate::bridge;
use crate::util;

verus! {

/// Lifecycle state of a transcription attempt.
#[derive(Clone, Copy, Debug, PartialEq, Eq, Structural)]
pub enum TranscriptionStatus {
    Idle,
    Running,
    Completed,
    Failed,
}

/// One produced output file registered for a job.
#[derive(Debug, PartialEq)]
pub struct TranscriptionResult {
    pub file_path: String,
    pub format: String,
    pub file_size: u64,
    pub created_at: String,
}

/// Ghost image of a result entry.
#[verifier::ext_equal]
pub ghost struct ResultView {
    pub file_path: Seq<char>,
    pub format: Seq<char>,
    pub file_size: u64,
    pub created_at: Seq<char>,
}

impl View for TranscriptionResult {
    type V = ResultView;

    open spec fn view(&self) -> ResultView {
        ResultView {
            file_path: self.file_path@,
            format: self.format@,
            file_size: self.file_size,
            created_at: self.created_at@,
        }
    }
}

impl DeepView for TranscriptionResult {
    type V = ResultView;

    open spec fn deep_view(&self) -> ResultView {
        self.view()
    }
}

impl Clone for TranscriptionResult {
    fn clone(&self) -> (r: Self)
        ensures
            r == self,
    {
        TranscriptionResult {
            file_path: self.file_path.clone(),
            format: self.format.clone(),
            file_size: self.file_size,
            created_at: self.created_at.clone(),
        }
    }
}

/// One record per transcription attempt.
#[derive(Debug, PartialEq)]
pub struct TranscriptionHistory {
    pub id: String,
    pub original_file_name: String,
    pub original_file_path: String,
    pub model_used: String,
    pub options_used: Vec<(String, String)>,
    pub results: Vec<TranscriptionResult>,
    pub status: TranscriptionStatus,
    pub created_at: String,
    pub completed_at: Option<String>,
    pub duration_seconds: Option<i64>,
    pub tags: Vec<String>,
    pub notes: Option<String>,
    pub error_message: Option<String>,
}

/// Ghost image of a job record.
#[verifier::ext_equal]
pub ghost struct HistoryView {
    pub id: Seq<char>,
    pub original_file_name: Seq<char>,
    pub original_file_path: Seq<char>,
    pub model_used: Seq<char>,
    pub options_used: Seq<(Seq<char>, Seq<char>)>,
    pub results: Seq<ResultView>,
    pub status: TranscriptionStatus,
    pub created_at: Seq<char>,
    pub completed_at: Option<Seq<char>>,
    pub duration_seconds: Option<i64>,
    pub tags: Seq<Seq<char>>,
    pub notes: Option<Seq<char>>,
    pub error_message: Option<Seq<char>>,
}

impl HistoryView {
    /// Internal consistency of one record: a record is `Running` exactly while
    /// it has no completion time, a duration exists only once completed, and a
    /// failed record carries an error message.  `Idle` is never constructed by
    /// this crate.
    pub open spec fn well_formed(self) -> bool {
        &&& !(self.status is Idle)
        &&& (self.status is Running <==> self.completed_at is None)
        &&& (self.duration_seconds is Some ==> self.completed_at is Some)
        &&& (self.status is Failed ==> self.error_message is Some)
    }
}

impl View for TranscriptionHistory {
    type V = HistoryView;

    open spec fn view(&self) -> HistoryView {
        HistoryView {
            id: self.id@,
            original_file_name: self.original_file_name@,
            original_file_path: self.original_file_path@,
            model_used: self.model_used@,
            options_used: self.options_used.deep_view(),
            results: self.results.deep_view(),
            status: self.status,
            created_at: self.created_at@,
            completed_at: self.completed_at.deep_view(),
            duration_seconds: self.duration_seconds,
            tags: self.tags.deep_view(),
            notes: self.notes.deep_view(),
            error_message: self.error_message.deep_view(),
        }
    }
}

impl DeepView for TranscriptionHistory {
    type V = HistoryView;

    open spec fn deep_view(&self) -> HistoryView {
        self.view()
    }
}

impl Clone for TranscriptionHistory {
    fn clone(&self) -> (r: Self)
        ensures
            r@ == self@,
    {
        let r = TranscriptionHistory {
            id: self.id.clone(),
            original_file_name: self.original_file_name.clone(),
            original_file_path: self.original_file_path.clone(),
            model_used: self.model_used.clone(),
            options_used: util::clone_string_pairs(&self.options_used),
            results: clone_results(&self.results),
            status: self.status,
            created_at: self.created_at.clone(),
            completed_at: util::clone_opt_string(&self.completed_at),
            duration_seconds: self.duration_seconds,
            tags: util::clone_string_vec(&self.tags),
            notes: util::clone_opt_string(&self.notes),
            error_message: util::clone_opt_string(&self.error_message),
        };
        assert(r@ =~= self@);
        r
    }
}

/// Copies a vector of result entries; the copy holds equal entries.
fn clone_results(v: &Vec<TranscriptionResult>) -> (r: Vec<TranscriptionResult>)
    ensures
        r@ == v@,
        r.deep_view() == v.deep_view(),
{
    let mut out: Vec<TranscriptionResult> = Vec::new();
    let mut i: usize = 0;
    while i < v.len()
        invariant
            i <= v.len(),
            out@ =~= v@.subrange(0, i as int),
        decreases v.len() - i,
    {
        out.push(v[i].clone());
        i = i + 1;
    }
    assert(out@ =~= v@);
    out
}

/// What `mark_completed` promises: `c` is `h` moved to `Completed`, with a
/// parseable completion timestamp and the duration in whole seconds between
/// the two timestamps — absent where `h`'s creation timestamp does not parse.
pub open spec fn completed_from(c: HistoryView, h: HistoryView) -> bool {
    &&& c.status is Completed
    &&& c.completed_at is Some
    &&& bridge::rfc3339_millis(c.completed_at->0) is Some
    &&& (bridge::rfc3339_millis(h.created_at) is None ==> c.duration_seconds is None)
    &&& (bridge::rfc3339_millis(h.created_at) is Some ==> {
        let cm = bridge::rfc3339_millis(c.completed_at->0)->0;
        let sm = bridge::rfc3339_millis(h.created_at)->0;
        let d = cm - sm;
        c.duration_seconds == Some((if d >= 0 {
            d / 1000
        } else {
            -((-d) / 1000)
        }) as i64)
    })
    &&& c.error_message == h.error_message
    &&& c.id == h.id
    &&& c.original_file_name == h.original_file_name
    &&& c.original_file_path == h.original_file_path
    &&& c.model_used == h.model_used
    &&& c.options_used == h.options_used
    &&& c.results == h.results
    &&& c.created_at == h.created_at
    &&& c.tags == h.tags
    &&& c.notes == h.notes
}

/// What `mark_failed` promises: `f` is `h` moved to `Failed`, with a parseable
/// completion timestamp and the given error message; the duration stays as it
/// was.
pub open spec fn failed_from(f: HistoryView, h: HistoryView, msg: Seq<char>) -> bool {
    &&& f.status is Failed
    &&& f.completed_at is Some
    &&& bridge::rfc3339_millis(f.completed_at->0) is Some
    &&& f.error_message == Some(msg)
    &&& f.duration_seconds == h.duration_seconds
    &&& f.id == h.id
    &&& f.original_file_name == h.original_file_name
    &&& f.original_file_path == h.original_file_path
    &&& f.model_used == h.model_used
    &&& f.options_used == h.options_used
    &&& f.results == h.results
    &&& f.created_at == h.created_at
    &&& f.tags == h.tags
    &&& f.notes == h.notes
}

/// What `new` promises of a freshly created record, given the views of its
/// arguments.
pub open spec fn new_record(
    h: HistoryView,
    original_file_name: Seq<char>,
    original_file_path: Seq<char>,
    model_used: Seq<char>,
    options_used: Seq<(Seq<char>, Seq<char>)>,
) -> bool {
    &&& h.id.len() == 36
    &&& h.original_file_name == original_file_name
    &&& h.original_file_path == original_file_path
    &&& h.model_used == model_used
    &&& h.options_used == options_used
    &&& h.results.len() == 0
    &&& h.status is Running
    &&& bridge::rfc3339_millis(h.created_at) is Some
    &&& h.completed_at is None
    &&& h.duration_seconds is None
    &&& h.tags.len() == 0
    &&& h.notes is None
    &&& h.error_message is None
    &&& h.well_formed()
}

impl TranscriptionHistory {
    /// Builds a fresh record for one transcription attempt: a new 36-character
    /// identifier, `Running` status, a parseable creation timestamp, no results,
    /// tags, notes, completion data or error.
    pub fn new(
        original_file_name: String,
        original_file_path: String,
        model_used: String,
        options_used: Vec<(String, String)>,
    ) -> (r: Self)
        ensures
            new_record(
                r@,
                original_file_name@,
                original_file_path@,
                model_used@,
                options_used.deep_view(),
            ),
    {
        let (created_at, _created_ms) = bridge::now_rfc3339();
        TranscriptionHistory {
            id: bridge::new_history_id(),
            original_file_name,
            original_file_path,
            model_used,
            options_used,
            results: Vec::new(),
            status: TranscriptionStatus::Running,
            created_at,
            completed_at: None,
            duration_seconds: None,
            tags: Vec::new(),
            notes: None,
            error_message: None,
        }
    }

    /// Moves the record to `Completed`, stamps the completion time, and derives
    /// the duration in whole seconds from the record's own creation timestamp.
    /// Where that timestamp does not parse, the duration is left absent rather
    /// than failing.
    pub fn mark_completed(self) -> (r: Self)
        ensures
            completed_from(r@, self@),
    {
        let (now_s, now_ms) = bridge::now_rfc3339();
        let duration_seconds: Option<i64> = match bridge::parse_rfc3339_millis(
            self.created_at.as_str(),
        ) {
            Some(created_ms) => {
                let d: i128 = now_ms as i128 - created_ms as i128;
                if d >= 0 {
                    let q: u128 = (d as u128) / 1000;
                    Some(q as i64)
                } else {
                    let q: u128 = ((-d) as u128) / 1000;
                    Some(-(q as i64))
                }
            },
            None => None,
        };
        TranscriptionHistory {
            status: TranscriptionStatus::Completed,
            completed_at: Some(now_s),
            duration_seconds,
            ..self
        }
    }

    /// Moves the record to `Failed`, stamps the completion time and stores the
    /// error message.  The duration is left as it was.
    pub fn mark_failed(self, error_message: String) -> (r: Self)
        ensures
            failed_from(r@, self@, error_message@),
    {
        let (now_s, _now_ms) = bridge::now_rfc3339();
        TranscriptionHistory {
            status: TranscriptionStatus::Failed,
            completed_at: Some(now_s),
            error_message: Some(error_message),
            ..self
        }
    }

    /// Appends one result entry; nothing else changes.
    pub fn add_result(self, result: TranscriptionResult) -> (r: Self)
        ensures
            r@.results == self@.results.push(result@),
            r@.id == self@.id,
            r@.original_file_name == self@.original_file_name,
            r@.original_file_path == self@.original_file_path,
            r@.model_used == self@.model_used,
            r@.options_used == self@.options_used,
            r@.status == self@.status,
            r@.created_at == self@.created_at,
            r@.completed_at == self@.completed_at,
            r@.duration_seconds == self@.duration_seconds,
            r@.tags == self@.tags,
            r@.notes == self@.notes,
            r@.error_message == self@.error_message,
    {
        let mut results = self.results;
        results.push(result);
        let r = TranscriptionHistory { results, ..self };
        proof {
            assert(r@.results =~= self@.results.push(result@));
        }
        r
    }

    /// Sum of the registered result sizes, in bytes.
    pub fn total_file_size(&self) -> (r: u64)
        requires
            total_size(self@.results) <= u64::MAX,
        ensures
            r == total_size(self@.results),
    {
        let mut sum: u64 = 0;
        let mut i: usize = 0;
        while i < self.results.len()
            invariant
                i <= self.results.len(),
                total_size(self@.results) <= u64::MAX,
                sum == total_size(self@.results.subrange(0, i as int)),
            decreases self.results.len() - i,
        {
            proof {
                lemma_total_size_prefix(self@.results, i as int);
            }
            sum = sum + self.results[i].file_size;
            i = i + 1;
        }
        proof {
            assert(self@.results.subrange(0, self@.results.len() as int) =~= self@.results);
        }
        sum
    }

    /// The formats of the registered results, in registration order.
    pub fn get_formats(&self) -> (r: Vec<String>)
        ensures
            r.deep_view() =~= self@.results.map_values(|e: ResultView| e.format),
    {
        let mut out: Vec<String> = Vec::new();
        let mut i: usize = 0;
        while i < self.results.len()
            invariant
                i <= self.results.len(),
                out@.len() == i,
                forall|j: int| 0 <= j < i ==> #[trigger] out@[j]@ == self@.results[j].format,
            decreases self.results.len() - i,
        {
            out.push(self.results[i].format.clone());
            i = i + 1;
        }
        proof {
            assert(out.deep_view() =~= self@.results.map_values(|e: ResultView| e.format));
        }
        out
    }
}

impl TranscriptionHistory {
    /// Decides the record's internal consistency; a caller that obtained a
    /// record from outside this crate can test it before handing it in.
    pub fn check_well_formed(&self) -> (r: bool)
        ensures
            r == self@.well_formed(),
    {
        let not_idle = !matches!(self.status, TranscriptionStatus::Idle);
        let running = matches!(self.status, TranscriptionStatus::Running);
        let failed = matches!(self.status, TranscriptionStatus::Failed);
        let completed_none = self.completed_at.is_none();
        let duration_some = self.duration_seconds.is_some();
        let has_error = self.error_message.is_some();
        not_idle && (running == completed_none) && (!duration_some || !completed_none) && (!failed
            || has_error)
    }
}

/// Total byte size of a sequence of result entries.
pub open spec fn total_size(s: Seq<ResultView>) -> int
    decreases s.len(),
{
    if s.len() == 0 {
        0
    } else {
        total_size(s.drop_last()) + s.last().file_size
    }
}

proof fn lemma_total_size_prefix(s: Seq<ResultView>, i: int)
    requires
        0 <= i < s.len(),
        total_size(s) <= u64::MAX,
    ensures
        total_size(s.subrange(0, i + 1)) == total_size(s.subrange(0, i)) + s[i].file_size,
        total_size(s.subrange(0, i + 1)) <= total_size(s),
    decreases s.len() - i,
{
    assert(s.subrange(0, i + 1).drop_last() =~= s.subrange(0, i));
    assert(s.subrange(0, i + 1).last() == s[i]);
    if i + 1 == s.len() {
        assert(s.subrange(0, i + 1) =~= s);
    } else {
        lemma_total_size_prefix(s, i + 1);
        lemma_total_size_nonneg(s.subrange(0, i + 1));
        assert(total_size(s.subrange(0, i + 2)) == total_size(s.subrange(0, i + 1))
            + s[i + 1].file_size);
    }
}

proof fn lemma_total_size_nonneg(s: Seq<ResultView>)
    ensures
        total_size(s) >= 0,
    decreases s.len(),
{
    if s.len() > 0 {
        lemma_total_size_nonneg(s.drop_last());
    }
}

} // verus!
