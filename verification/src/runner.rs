//! The transcription job runner: every decision on one job's way from
//! submission to its terminal state.
//!
//! The runner itself performs no I/O.  The surrounding layer probes the model
//! file and the engine candidates, launches the planned process, streams its
//! output, probes the produced files, and hands each outcome back in as plain
//! values; `start_transcription_with_options` makes every pre-launch
//! decision, and `handle_process_exit` folds the process outcome into the
//! record and yields the single terminal event — only after the record has
//! reached its terminal state, so a listener that reacts to the event reads a
//! consistent record.

use vstd::prelude::*;
use vstd::string::*;

use crate::errors::HistoryError;
use crate::models::HistoryView;
use crate::models::completed_from;
use crate::models::failed_from;
use crate::models::new_record;
use crate::registry::ProbeView;
use crate::registry::ResultProbe;
use crate::registry::existing_probes;
use crate::registry::lemma_upsert_twice;
use crate::registry::registered_into;
use crate::store::HistoryService;
use crate::store::lemma_lookup_upsert;
use crate::store::lookup;
use crate::store::upsert;
use crate::strutil;
use crate::util;

verus! {

/// The configuration a caller submits for one transcription: the model name,
/// the input file, and the options passed through to the engine.
#[derive(Debug, PartialEq)]
pub struct WhisperConfig {
    pub model: String,
    pub input_file: String,
    pub options: Vec<(String, String)>,
}

/// Holds the locations of one engine installation; the provisioning itself
/// (cloning, building, downloading models) is outside work around this crate.
#[derive(Debug, PartialEq)]
pub struct WhisperInstaller {
    pub whisper_repo_path: String,
    pub models_path: String,
}

impl WhisperInstaller {
    /// Remembers where the engine repository and the model files live.
    pub fn new(whisper_repo_path: String, models_path: String) -> (r: Self)
        ensures
            r.whisper_repo_path@ == whisper_repo_path@,
            r.models_path@ == models_path@,
    {
        WhisperInstaller { whisper_repo_path, models_path }
    }
}

/// Everything the surrounding layer needs to launch the planned engine
/// process for one job.
#[derive(Debug, PartialEq)]
pub struct TranscriptionPlan {
    pub history_id: String,
    pub binary_path: String,
    pub args: Vec<String>,
    pub files_dir: String,
}

/// What became of the launched process, as observed by the surrounding layer.
#[derive(Debug, PartialEq)]
pub enum ProcessEvent {
    Exited { success: bool },
    SpawnFailed { message: String },
    WaitFailed { message: String },
}

/// The single terminal event of one job, emitted only after the record has
/// reached its terminal state.  Every event carries the job id.
#[derive(Debug, PartialEq)]
pub enum TerminalEvent {
    Completed { history_id: String },
    Error { history_id: String, message: String },
}

/// Index of the first set flag.
pub open spec fn first_true(s: Seq<bool>) -> Option<int>
    decreases s.len(),
{
    if s.len() == 0 {
        None
    } else if s[0] {
        Some(0)
    } else {
        match first_true(s.drop_first()) {
            Some(i) => Some(i + 1),
            None => None,
        }
    }
}

/// Path of one model weight file under the model directory.
pub open spec fn model_path_of(models_path: Seq<char>, model: Seq<char>) -> Seq<char> {
    models_path + "/ggml-"@ + model + ".bin"@
}

/// Directory that receives one job's output files.
pub open spec fn files_dir_of(results_dir: Seq<char>, id: Seq<char>) -> Seq<char> {
    results_dir + "/"@ + id + "/files"@
}

/// Base path (without extension) the engine writes its outputs to.
pub open spec fn output_base_of(results_dir: Seq<char>, id: Seq<char>) -> Seq<char> {
    files_dir_of(results_dir, id) + "/result"@
}

/// The fixed, ordered list of engine executable candidates under a
/// repository: the current CLI locations first, the legacy ones behind them.
pub open spec fn engine_candidates_of(repo: Seq<char>) -> Seq<Seq<char>> {
    seq![
        repo + "/build/bin/whisper-cli"@,
        repo + "/build/whisper-cli"@,
        repo + "/build/bin/main"@,
        repo + "/build/main"@,
    ]
}

/// `--` in front of an option name.
pub open spec fn flag_of(name: Seq<char>) -> Seq<char> {
    "--"@ + name
}

/// The arguments one option contributes: output selectors and valueless
/// options become a bare flag, anything else a flag followed by its value.
pub open spec fn args_of_option(p: (Seq<char>, Seq<char>)) -> Seq<Seq<char>> {
    if strutil::has_prefix(p.0, "output-"@) {
        seq![flag_of(p.0)]
    } else if p.1.len() == 0 {
        seq![flag_of(p.0)]
    } else {
        seq![flag_of(p.0), p.1]
    }
}

/// The arguments all options contribute, in option order.
pub open spec fn option_args(opts: Seq<(Seq<char>, Seq<char>)>) -> Seq<Seq<char>>
    decreases opts.len(),
{
    if opts.len() == 0 {
        Seq::empty()
    } else {
        option_args(opts.drop_last()) + args_of_option(opts.last())
    }
}

/// Whether any option selects an output format.
pub open spec fn any_output_option(opts: Seq<(Seq<char>, Seq<char>)>) -> bool {
    exists|i: int| 0 <= i < opts.len() && strutil::has_prefix((#[trigger] opts[i]).0, "output-"@)
}

/// The full argument list for one engine invocation: model, input, output
/// base, the caller's options, and a default subtitle output where the caller
/// selected none — so every job produces at least one artifact.
pub open spec fn transcription_args(
    model_path: Seq<char>,
    input_file: Seq<char>,
    output_base: Seq<char>,
    opts: Seq<(Seq<char>, Seq<char>)>,
) -> Seq<Seq<char>> {
    seq!["-m"@, model_path, "-f"@, input_file, "--output-file"@, output_base] + option_args(opts)
        + (if any_output_option(opts) {
        Seq::<Seq<char>>::empty()
    } else {
        seq!["--output-srt"@]
    })
}

/// A record created by a submission that then failed before launch: fresh,
/// already moved to `Failed` with the message.
pub open spec fn failed_new_record(
    f: HistoryView,
    name: Seq<char>,
    path: Seq<char>,
    model: Seq<char>,
    opts: Seq<(Seq<char>, Seq<char>)>,
    msg: Seq<char>,
) -> bool {
    &&& f.id.len() == 36
    &&& f.original_file_name == name
    &&& f.original_file_path == path
    &&& f.model_used == model
    &&& f.options_used == opts
    &&& f.results.len() == 0
    &&& f.status is Failed
    &&& f.error_message == Some(msg)
    &&& f.completed_at is Some
    &&& f.well_formed()
}

/// The outcome of every failure path of `handle_process_exit`: an error event
/// carrying the job id and the message, and — where the record exists — the
/// record moved to `Failed` with that message, stored and indexed.  An
/// unknown id changes nothing.
pub open spec fn failed_outcome(
    pre: HistoryService,
    post: HistoryService,
    r: TerminalEvent,
    id: Seq<char>,
    msg: Seq<char>,
) -> bool {
    &&& (r matches TerminalEvent::Error { history_id, message } && history_id@ == id && message@
        == msg)
    &&& (lookup(pre.records_view(), id) is Some ==> exists|f: HistoryView|
        failed_from(f, lookup(pre.records_view(), id)->0, msg) && post.records_view() == upsert(
            pre.records_view(),
            f,
        ) && post.index_view() == upsert(pre.index_view(), f))
    &&& (lookup(pre.records_view(), id) is None ==> post == pre)
}

/// Picks the first existing candidate, by its probe flags.
pub fn resolve_engine(engine_exists: &Vec<bool>) -> (r: Option<usize>)
    ensures
        r is Some <==> first_true(engine_exists@) is Some,
        r is Some ==> first_true(engine_exists@) == Some(r->0 as int) && r->0
            < engine_exists@.len(),
{
    let mut i: usize = 0;
    while i < engine_exists.len()
        invariant
            i <= engine_exists.len(),
            forall|j: int| 0 <= j < i ==> !engine_exists@[j],
        decreases engine_exists.len() - i,
    {
        if engine_exists[i] {
            proof {
                lemma_first_true_at(engine_exists@, i as int);
            }
            return Some(i);
        }
        i = i + 1;
    }
    proof {
        lemma_first_true_none(engine_exists@);
    }
    None
}

/// Where the first set flag stands at `i`, `first_true` finds it.
proof fn lemma_first_true_at(s: Seq<bool>, i: int)
    requires
        0 <= i < s.len(),
        s[i],
        forall|j: int| 0 <= j < i ==> !s[j],
    ensures
        first_true(s) == Some(i),
    decreases i,
{
    if i > 0 {
        lemma_first_true_at(s.drop_first(), i - 1);
    }
}

/// With no flag set, `first_true` finds none.
proof fn lemma_first_true_none(s: Seq<bool>)
    requires
        forall|j: int| 0 <= j < s.len() ==> !s[j],
    ensures
        first_true(s) is None,
    decreases s.len(),
{
    if s.len() > 0 {
        lemma_first_true_none(s.drop_first());
    }
}

/// The growth of `any_output_option` by one option.
proof fn lemma_any_output_step(opts: Seq<(Seq<char>, Seq<char>)>, i: int)
    requires
        0 <= i < opts.len(),
    ensures
        any_output_option(opts.take(i + 1)) == (any_output_option(opts.take(i))
            || strutil::has_prefix(opts[i].0, "output-"@)),
{
    let a = opts.take(i);
    let b = opts.take(i + 1);
    assert(forall|k: int| 0 <= k < i ==> a[k] == opts[k] && b[k] == opts[k]);
    assert(b[i] == opts[i]);
    if any_output_option(b) {
        let k = choose|k: int|
            0 <= k < b.len() && strutil::has_prefix((#[trigger] b[k]).0, "output-"@);
        if k < i {
            assert(strutil::has_prefix(a[k].0, "output-"@));
        }
    }
    if any_output_option(a) {
        let k = choose|k: int|
            0 <= k < a.len() && strutil::has_prefix((#[trigger] a[k]).0, "output-"@);
        assert(strutil::has_prefix(b[k].0, "output-"@));
    }
    if strutil::has_prefix(opts[i].0, "output-"@) {
        assert(strutil::has_prefix(b[i].0, "output-"@));
    }
}

/// Builds the engine's argument list for one job.
pub fn build_transcription_args(
    model_path: &str,
    input_file: &str,
    output_base: &str,
    options: &Vec<(String, String)>,
) -> (r: Vec<String>)
    ensures
        r.deep_view() == transcription_args(
            model_path@,
            input_file@,
            output_base@,
            options.deep_view(),
        ),
{
    let mut args: Vec<String> = Vec::new();
    args.push(String::from_str("-m"));
    args.push(String::from_str(model_path));
    args.push(String::from_str("-f"));
    args.push(String::from_str(input_file));
    args.push(String::from_str("--output-file"));
    args.push(String::from_str(output_base));
    let ghost prefix = seq!["-m"@, model_path@, "-f"@, input_file@, "--output-file"@, output_base@];
    proof {
        assert(args.deep_view() =~= prefix);
    }
    let mut has_output = false;
    let mut i: usize = 0;
    while i < options.len()
        invariant
            i <= options.len(),
            prefix == seq![
                "-m"@,
                model_path@,
                "-f"@,
                input_file@,
                "--output-file"@,
                output_base@,
            ],
            args.deep_view() == prefix + option_args(options.deep_view().take(i as int)),
            has_output == any_output_option(options.deep_view().take(i as int)),
        decreases options.len() - i,
    {
        let ghost odv = options.deep_view();
        let ghost pre_args = args.deep_view();
        let flag = strutil::str_concat("--", options[i].0.as_str());
        proof {
            assert(odv[i as int] == (options@[i as int].0@, options@[i as int].1@));
            assert(flag@ == flag_of(odv[i as int].0));
        }
        let is_output = strutil::str_has_prefix(options[i].0.as_str(), "output-");
        if is_output {
            args.push(flag);
            has_output = true;
        } else if options[i].1.as_str().is_empty() {
            args.push(flag);
        } else {
            args.push(flag);
            args.push(options[i].1.clone());
        }
        proof {
            lemma_any_output_step(odv, i as int);
            assert(odv.take(i as int + 1).drop_last() =~= odv.take(i as int));
            assert(odv.take(i as int + 1).last() == odv[i as int]);
            assert(args.deep_view() =~= pre_args + args_of_option(odv[i as int]));
        }
        i = i + 1;
    }
    proof {
        assert(options.deep_view().take(options@.len() as int) =~= options.deep_view());
    }
    if !has_output {
        let ghost pre_args = args.deep_view();
        args.push(String::from_str("--output-srt"));
        proof {
            assert(args.deep_view() =~= pre_args + seq!["--output-srt"@]);
        }
    } else {
        proof {
            assert(args.deep_view() =~= args.deep_view() + Seq::<Seq<char>>::empty());
        }
    }
    args
}

/// Orchestrates transcription jobs: knows where the engine and the models
/// live, and owns the record store that tracks every job.
pub struct WhisperService {
    pub whisper_repo_path: String,
    pub whisper_binary_path: String,
    pub models_path: String,
    pub installer: WhisperInstaller,
    pub history_service: HistoryService,
}

impl WhisperService {
    /// Builds a service rooted under the given home directory, with an empty
    /// record store.
    pub fn new(home_dir: &str) -> (r: Self)
        ensures
            r.whisper_repo_path@ == home_dir@ + "/.whisper-gui/whisper.cpp"@,
            r.whisper_binary_path@ == home_dir@ + "/.whisper-gui/whisper.cpp/build/bin/main"@,
            r.models_path@ == home_dir@ + "/.whisper-gui/models"@,
            r.installer.whisper_repo_path@ == r.whisper_repo_path@,
            r.installer.models_path@ == r.models_path@,
            r.history_service.whisper_gui_dir@ == home_dir@ + "/.whisper-gui"@,
            r.history_service.results_dir@ == home_dir@ + "/.whisper-gui/results"@,
            r.history_service.history_index_file@ == home_dir@ + "/.whisper-gui/history.json"@,
            r.history_service.records_view() == Seq::<HistoryView>::empty(),
            r.history_service.index_view() == Seq::<HistoryView>::empty(),
            r.history_service.wf(),
    {
        let whisper_repo_path = strutil::str_concat(home_dir, "/.whisper-gui/whisper.cpp");
        let whisper_binary_path = strutil::str_concat(
            home_dir,
            "/.whisper-gui/whisper.cpp/build/bin/main",
        );
        let models_path = strutil::str_concat(home_dir, "/.whisper-gui/models");
        let installer = WhisperInstaller::new(whisper_repo_path.clone(), models_path.clone());
        let history_service = HistoryService::new(home_dir);
        WhisperService {
            whisper_repo_path,
            whisper_binary_path,
            models_path,
            installer,
            history_service,
        }
    }

    /// Path of the model weight file the configuration names.
    pub fn model_file_path(&self, model: &str) -> (r: String)
        ensures
            r@ == model_path_of(self.models_path@, model@),
    {
        let p = strutil::str_concat(self.models_path.as_str(), "/ggml-");
        let q = strutil::str_concat(p.as_str(), model);
        let r = strutil::str_concat(q.as_str(), ".bin");
        proof {
            assert(r@ =~= model_path_of(self.models_path@, model@));
        }
        r
    }

    /// The ordered engine executable candidates to probe.
    pub fn engine_candidates(&self) -> (r: Vec<String>)
        ensures
            r.deep_view() == engine_candidates_of(self.whisper_repo_path@),
    {
        let repo = self.whisper_repo_path.as_str();
        let mut v: Vec<String> = Vec::new();
        v.push(strutil::str_concat(repo, "/build/bin/whisper-cli"));
        v.push(strutil::str_concat(repo, "/build/whisper-cli"));
        v.push(strutil::str_concat(repo, "/build/bin/main"));
        v.push(strutil::str_concat(repo, "/build/main"));
        proof {
            assert(v.deep_view() =~= engine_candidates_of(self.whisper_repo_path@));
        }
        v
    }

    /// Every pre-launch decision of one submission.  The caller reports
    /// whether the model file exists and which engine candidates exist (one
    /// flag per entry of `engine_candidates`, in order).
    ///
    /// A missing model fails with `NotFound` before any record exists.  With
    /// the model present a record is created in `Running`; a missing engine
    /// then moves that record to `Failed` and fails with `EngineNotFound`;
    /// otherwise the returned plan carries the new job's id, the first
    /// existing engine binary, the full argument list and the job's output
    /// directory.
    pub fn start_transcription_with_options(
        &mut self,
        config: &WhisperConfig,
        model_file_exists: bool,
        engine_exists: &Vec<bool>,
    ) -> (r: Result<TranscriptionPlan, HistoryError>)
        requires
            old(self).history_service.wf(),
            engine_exists@.len() == 4,
        ensures
            final(self).history_service.wf(),
            final(self).history_service.same_paths(old(self).history_service),
            final(self).whisper_repo_path == old(self).whisper_repo_path,
            final(self).whisper_binary_path == old(self).whisper_binary_path,
            final(self).models_path == old(self).models_path,
            !model_file_exists ==> r == Err::<TranscriptionPlan, HistoryError>(
                HistoryError::NotFound,
            ) && *final(self) == *old(self),
            model_file_exists && first_true(engine_exists@) is None ==> r == Err::<
                TranscriptionPlan,
                HistoryError,
            >(HistoryError::EngineNotFound) && (exists|f: HistoryView|
                failed_new_record(
                    f,
                    util::base_name_of(config.input_file@),
                    config.input_file@,
                    config.model@,
                    config.options.deep_view(),
                    "Whisper binary not found"@,
                ) && final(self).history_service.records_view() == upsert(
                    old(self).history_service.records_view(),
                    f,
                ) && final(self).history_service.index_view() == upsert(
                    old(self).history_service.index_view(),
                    f,
                )),
            model_file_exists && first_true(engine_exists@) is Some ==> r is Ok && {
                let plan = r->Ok_0;
                &&& plan.history_id@.len() == 36
                &&& plan.binary_path@ == engine_candidates_of(old(self).whisper_repo_path@)[
                    first_true(engine_exists@)->0]
                &&& plan.files_dir@ == files_dir_of(
                    old(self).history_service.results_dir@,
                    plan.history_id@,
                )
                &&& plan.args.deep_view() == transcription_args(
                    model_path_of(old(self).models_path@, config.model@),
                    config.input_file@,
                    output_base_of(old(self).history_service.results_dir@, plan.history_id@),
                    config.options.deep_view(),
                )
                &&& exists|h: HistoryView|
                    new_record(
                        h,
                        util::base_name_of(config.input_file@),
                        config.input_file@,
                        config.model@,
                        config.options.deep_view(),
                    ) && h.id == plan.history_id@ && final(self).history_service.records_view()
                        == upsert(old(self).history_service.records_view(), h)
                        && final(self).history_service.index_view() == upsert(
                        old(self).history_service.index_view(),
                        h,
                    )
            },
    {
        if !model_file_exists {
            return Err(HistoryError::NotFound);
        }
        let original_file_name = util::file_base_name(config.input_file.as_str());
        let history = self.history_service.create_history_entry(
            original_file_name,
            config.input_file.clone(),
            config.model.clone(),
            crate::util::clone_string_pairs(&config.options),
        );
        match resolve_engine(engine_exists) {
            None => {
                proof {
                    lemma_lookup_upsert(old(self).history_service.records_view(), history@);
                }
                let marked = self.history_service.mark_history_failed(
                    history.id.as_str(),
                    String::from_str("Whisper binary not found"),
                );
                match marked {
                    Ok(f) => {
                        proof {
                            lemma_upsert_twice(
                                old(self).history_service.records_view(),
                                history@,
                                f@,
                            );
                            lemma_upsert_twice(
                                old(self).history_service.index_view(),
                                history@,
                                f@,
                            );
                            assert(failed_new_record(
                                f@,
                                util::base_name_of(config.input_file@),
                                config.input_file@,
                                config.model@,
                                config.options.deep_view(),
                                "Whisper binary not found"@,
                            ));
                        }
                        Err(HistoryError::EngineNotFound)
                    },
                    Err(_) => {
                        proof {
                            assert(false);
                        }
                        Err(HistoryError::EngineNotFound)
                    },
                }
            },
            Some(idx) => {
                let candidates = self.engine_candidates();
                proof {
                    assert(candidates@.len() == candidates.deep_view().len());
                    assert(candidates.deep_view().len() == 4);
                }
                let dir = self.history_service.get_history_directory(history.id.as_str());
                let files_dir = strutil::str_concat(dir.as_str(), "/files");
                let output_base = strutil::str_concat(files_dir.as_str(), "/result");
                let model_path = self.model_file_path(config.model.as_str());
                let args = build_transcription_args(
                    model_path.as_str(),
                    config.input_file.as_str(),
                    output_base.as_str(),
                    &config.options,
                );
                let binary_path = candidates[idx].clone();
                proof {
                    assert(files_dir@ =~= files_dir_of(
                        old(self).history_service.results_dir@,
                        history@.id,
                    ));
                    assert(output_base@ =~= output_base_of(
                        old(self).history_service.results_dir@,
                        history@.id,
                    ));
                }
                Ok(
                    TranscriptionPlan {
                        history_id: history.id,
                        binary_path,
                        args,
                        files_dir,
                    },
                )
            },
        }
    }

    /// Folds the observed process outcome into the job's record and yields
    /// the single terminal event — after the store holds the terminal state.
    ///
    /// A successful exit with at least one produced file registers the files
    /// and completes the job; a successful exit without any file fails it,
    /// since a clean exit alone is no evidence of output.  Every other
    /// outcome fails the job with the outcome's message.
    pub fn handle_process_exit(
        &mut self,
        history_id: &str,
        event: ProcessEvent,
        result_files: Vec<ResultProbe>,
    ) -> (r: TerminalEvent)
        requires
            old(self).history_service.wf(),
        ensures
            final(self).history_service.wf(),
            final(self).history_service.same_paths(old(self).history_service),
            final(self).whisper_repo_path == old(self).whisper_repo_path,
            final(self).whisper_binary_path == old(self).whisper_binary_path,
            final(self).models_path == old(self).models_path,
            (event matches ProcessEvent::Exited { success } && success && lookup(
                old(self).history_service.records_view(),
                history_id@,
            ) is Some && existing_probes(result_files.deep_view()).len() > 0) ==> (r matches
                TerminalEvent::Completed { history_id: hid } && hid@ == history_id@) && (exists|
                mid: HistoryView,
                c: HistoryView,
            |
                registered_into(
                    mid,
                    lookup(old(self).history_service.records_view(), history_id@)->0,
                    result_files.deep_view(),
                ) && completed_from(c, mid) && final(self).history_service.records_view()
                    == upsert(old(self).history_service.records_view(), c)
                    && final(self).history_service.index_view() == upsert(
                    old(self).history_service.index_view(),
                    c,
                )),
            (event matches ProcessEvent::Exited { success } && success && !(lookup(
                old(self).history_service.records_view(),
                history_id@,
            ) is Some && existing_probes(result_files.deep_view()).len() > 0)) ==> failed_outcome(
                old(self).history_service,
                final(self).history_service,
                r,
                history_id@,
                "No result files found in files directory"@,
            ),
            (event matches ProcessEvent::Exited { success } && !success) ==> failed_outcome(
                old(self).history_service,
                final(self).history_service,
                r,
                history_id@,
                "Transcription process failed"@,
            ),
            (event matches ProcessEvent::SpawnFailed { message } ==> failed_outcome(
                old(self).history_service,
                final(self).history_service,
                r,
                history_id@,
                message@,
            )),
            (event matches ProcessEvent::WaitFailed { message } ==> failed_outcome(
                old(self).history_service,
                final(self).history_service,
                r,
                history_id@,
                message@,
            )),
    {
        match event {
            ProcessEvent::Exited { success } => {
                if success {
                    match self.history_service.add_transcription_results(
                        history_id,
                        result_files,
                    ) {
                        Ok(_completed) => {
                            TerminalEvent::Completed { history_id: String::from_str(history_id) }
                        },
                        Err(_e) => {
                            let message = String::from_str(
                                "No result files found in files directory",
                            );
                            self.fail_and_report(history_id, message)
                        },
                    }
                } else {
                    let message = String::from_str("Transcription process failed");
                    self.fail_and_report(history_id, message)
                }
            },
            ProcessEvent::SpawnFailed { message } => self.fail_and_report(history_id, message),
            ProcessEvent::WaitFailed { message } => self.fail_and_report(history_id, message),
        }
    }

    /// Moves the record to `Failed` with the message — a no-op for an unknown
    /// id — and builds the error event carrying id and message.
    fn fail_and_report(&mut self, history_id: &str, message: String) -> (r: TerminalEvent)
        requires
            old(self).history_service.wf(),
        ensures
            final(self).history_service.wf(),
            final(self).history_service.same_paths(old(self).history_service),
            final(self).whisper_repo_path == old(self).whisper_repo_path,
            final(self).whisper_binary_path == old(self).whisper_binary_path,
            final(self).models_path == old(self).models_path,
            failed_outcome(
                old(self).history_service,
                final(self).history_service,
                r,
                history_id@,
                message@,
            ),
    {
        let event_message = message.clone();
        let marked = self.history_service.mark_history_failed(history_id, message);
        proof {
            if lookup(old(self).history_service.records_view(), history_id@) is Some {
                assert(marked is Ok);
                assert(failed_from(
                    marked->Ok_0@,
                    lookup(old(self).history_service.records_view(), history_id@)->0,
                    event_message@,
                ));
            }
        }
        TerminalEvent::Error { history_id: String::from_str(history_id), message: event_message }
    }
}

} // verus!
