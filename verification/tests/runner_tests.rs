use whisper_jobs::errors::HistoryError;
use whisper_jobs::models::TranscriptionStatus;
use whisper_jobs::registry::ResultProbe;
use whisper_jobs::runner::ProcessEvent;
use whisper_jobs::runner::TerminalEvent;
use whisper_jobs::runner::TranscriptionPlan;
use whisper_jobs::runner::WhisperConfig;
use whisper_jobs::runner::WhisperService;
use whisper_jobs::runner::build_transcription_args;
use whisper_jobs::runner::resolve_engine;

fn config(model: &str, input: &str, options: Vec<(&str, &str)>) -> WhisperConfig {
    WhisperConfig {
        model: model.to_string(),
        input_file: input.to_string(),
        options: options
            .into_iter()
            .map(|(k, v)| (k.to_string(), v.to_string()))
            .collect(),
    }
}

fn start_job(service: &mut WhisperService, cfg: &WhisperConfig) -> TranscriptionPlan {
    let engine_exists = vec![false, false, true, false];
    service
        .start_transcription_with_options(cfg, true, &engine_exists)
        .expect("model and engine exist")
}

#[test]
fn service_paths_follow_home_directory() {
    let service = WhisperService::new("/home/tester");
    assert_eq!(service.whisper_repo_path, "/home/tester/.whisper-gui/whisper.cpp");
    assert_eq!(service.models_path, "/home/tester/.whisper-gui/models");
    assert_eq!(
        service.model_file_path("base"),
        "/home/tester/.whisper-gui/models/ggml-base.bin"
    );
    let candidates = service.engine_candidates();
    assert_eq!(candidates.len(), 4);
    assert_eq!(candidates[0], "/home/tester/.whisper-gui/whisper.cpp/build/bin/whisper-cli");
    assert_eq!(candidates[3], "/home/tester/.whisper-gui/whisper.cpp/build/main");
}

#[test]
fn missing_model_fails_before_any_record() {
    let mut service = WhisperService::new("/home/tester");
    let cfg = config("base", "/audio/lecture.mp3", vec![]);
    let engine_exists = vec![true, false, false, false];
    let r = service.start_transcription_with_options(&cfg, false, &engine_exists);
    assert_eq!(r, Err(HistoryError::NotFound));
    let all = service.history_service.load_history_index();
    assert!(all.is_empty());
}

#[test]
fn missing_engine_fails_the_created_record() {
    let mut service = WhisperService::new("/home/tester");
    let cfg = config("base", "/audio/lecture.mp3", vec![]);
    let engine_exists = vec![false, false, false, false];
    let r = service.start_transcription_with_options(&cfg, true, &engine_exists);
    assert_eq!(r, Err(HistoryError::EngineNotFound));
    let all = service.history_service.load_history_index();
    assert_eq!(all.len(), 1);
    assert!(matches!(all[0].status, TranscriptionStatus::Failed));
    assert_eq!(all[0].error_message, Some("Whisper binary not found".to_string()));
}

#[test]
fn plan_carries_id_binary_and_arguments() {
    let mut service = WhisperService::new("/home/tester");
    let cfg = config("base", "/audio/lecture.mp3", vec![]);
    let plan = start_job(&mut service, &cfg);
    assert_eq!(plan.history_id.len(), 36);
    assert_eq!(plan.binary_path, "/home/tester/.whisper-gui/whisper.cpp/build/bin/main");
    let files_dir = format!(
        "/home/tester/.whisper-gui/results/{}/files",
        plan.history_id
    );
    assert_eq!(plan.files_dir, files_dir);
    let expected_args = vec![
        "-m".to_string(),
        "/home/tester/.whisper-gui/models/ggml-base.bin".to_string(),
        "-f".to_string(),
        "/audio/lecture.mp3".to_string(),
        "--output-file".to_string(),
        format!("{}/result", files_dir),
        "--output-srt".to_string(),
    ];
    assert_eq!(plan.args, expected_args);
    let record = service
        .history_service
        .load_history_metadata(&plan.history_id)
        .expect("record was created");
    assert!(matches!(record.status, TranscriptionStatus::Running));
    assert_eq!(record.original_file_name, "lecture.mp3");
    assert_eq!(record.model_used, "base");
}

#[test]
fn option_translation_covers_every_shape() {
    let args = build_transcription_args(
        "/m/ggml-base.bin",
        "/audio/in.wav",
        "/out/result",
        &vec![
            ("output-txt".to_string(), "ignored".to_string()),
            ("translate".to_string(), String::new()),
            ("language".to_string(), "en".to_string()),
        ],
    );
    assert_eq!(
        args,
        vec![
            "-m".to_string(),
            "/m/ggml-base.bin".to_string(),
            "-f".to_string(),
            "/audio/in.wav".to_string(),
            "--output-file".to_string(),
            "/out/result".to_string(),
            "--output-txt".to_string(),
            "--translate".to_string(),
            "--language".to_string(),
            "en".to_string(),
        ]
    );
}

#[test]
fn successful_exit_with_one_file_completes_the_job() {
    let mut service = WhisperService::new("/home/tester");
    let cfg = config("base", "/audio/lecture.mp3", vec![]);
    let plan = start_job(&mut service, &cfg);
    let probes = vec![ResultProbe {
        file_path: format!("{}/result.srt", plan.files_dir),
        format: "srt".to_string(),
        file_size: Some(120),
    }];
    let event = service.handle_process_exit(
        &plan.history_id,
        ProcessEvent::Exited { success: true },
        probes,
    );
    match event {
        TerminalEvent::Completed { history_id } => assert_eq!(history_id, plan.history_id),
        other => panic!("expected completion, got {:?}", other),
    }
    let record = service
        .history_service
        .load_history_metadata(&plan.history_id)
        .unwrap();
    assert!(matches!(record.status, TranscriptionStatus::Completed));
    assert_eq!(record.results.len(), 1);
    assert_eq!(record.results[0].format, "srt");
    assert_eq!(record.results[0].file_size, 120);
    assert!(record.duration_seconds.is_some());
    assert!(record.duration_seconds.unwrap() >= 0);
}

#[test]
fn failed_exit_marks_the_job_failed() {
    let mut service = WhisperService::new("/home/tester");
    let cfg = config("base", "/audio/lecture.mp3", vec![]);
    let plan = start_job(&mut service, &cfg);
    let event = service.handle_process_exit(
        &plan.history_id,
        ProcessEvent::Exited { success: false },
        Vec::new(),
    );
    match event {
        TerminalEvent::Error { history_id, message } => {
            assert_eq!(history_id, plan.history_id);
            assert_eq!(message, "Transcription process failed");
        },
        other => panic!("expected error, got {:?}", other),
    }
    let record = service
        .history_service
        .load_history_metadata(&plan.history_id)
        .unwrap();
    assert!(matches!(record.status, TranscriptionStatus::Failed));
    assert!(record.error_message.is_some());
    assert!(record.results.is_empty());
}

#[test]
fn successful_exit_without_files_marks_the_job_failed() {
    let mut service = WhisperService::new("/home/tester");
    let cfg = config("base", "/audio/lecture.mp3", vec![]);
    let plan = start_job(&mut service, &cfg);
    let probes = vec![ResultProbe {
        file_path: format!("{}/result.srt", plan.files_dir),
        format: "srt".to_string(),
        file_size: None,
    }];
    let event = service.handle_process_exit(
        &plan.history_id,
        ProcessEvent::Exited { success: true },
        probes,
    );
    assert!(matches!(event, TerminalEvent::Error { .. }));
    let record = service
        .history_service
        .load_history_metadata(&plan.history_id)
        .unwrap();
    assert!(matches!(record.status, TranscriptionStatus::Failed));
    assert_eq!(
        record.error_message,
        Some("No result files found in files directory".to_string())
    );
}

#[test]
fn spawn_failure_message_reaches_record_and_event() {
    let mut service = WhisperService::new("/home/tester");
    let cfg = config("base", "/audio/lecture.mp3", vec![]);
    let plan = start_job(&mut service, &cfg);
    let event = service.handle_process_exit(
        &plan.history_id,
        ProcessEvent::SpawnFailed { message: "no such binary".to_string() },
        Vec::new(),
    );
    match event {
        TerminalEvent::Error { history_id, message } => {
            assert_eq!(history_id, plan.history_id);
            assert_eq!(message, "no such binary");
        },
        other => panic!("expected error, got {:?}", other),
    }
    let record = service
        .history_service
        .load_history_metadata(&plan.history_id)
        .unwrap();
    assert_eq!(record.error_message, Some("no such binary".to_string()));
}

#[test]
fn resolve_engine_picks_the_first_existing_candidate() {
    assert_eq!(resolve_engine(&vec![false, true, true, false]), Some(1));
    assert_eq!(resolve_engine(&vec![true, false, false, false]), Some(0));
    assert_eq!(resolve_engine(&vec![false, false, false, false]), None);
}

#[test]
fn expected_result_files_follow_the_options() {
    let service = WhisperService::new("/home/tester");
    let none: Vec<(String, String)> = Vec::new();
    let defaults = service.history_service.expected_result_files("job1", &none);
    assert_eq!(
        defaults,
        vec![(
            "/home/tester/.whisper-gui/results/job1/files/result.srt".to_string(),
            "srt".to_string()
        )]
    );
    let with_txt = vec![("output-txt".to_string(), String::new())];
    let files = service.history_service.expected_result_files("job1", &with_txt);
    let formats: Vec<&str> = files.iter().map(|(_, f)| f.as_str()).collect();
    assert_eq!(formats, vec!["txt", "srt"]);
}

#[test]
fn partial_registration_keeps_what_exists() {
    let mut service = WhisperService::new("/home/tester");
    let cfg = config("base", "/audio/lecture.mp3", vec![("output-txt", "")]);
    let plan = start_job(&mut service, &cfg);
    let probes = vec![
        ResultProbe {
            file_path: format!("{}/result.txt", plan.files_dir),
            format: "txt".to_string(),
            file_size: None,
        },
        ResultProbe {
            file_path: format!("{}/result.srt", plan.files_dir),
            format: "srt".to_string(),
            file_size: Some(64),
        },
    ];
    let registered = service
        .history_service
        .register_existing_results(&plan.history_id, probes)
        .expect("one file exists");
    assert_eq!(registered.results.len(), 1);
    assert_eq!(registered.results[0].format, "srt");
    assert!(matches!(registered.status, TranscriptionStatus::Running));
}

#[test]
fn registration_with_no_existing_file_is_not_found() {
    let mut service = WhisperService::new("/home/tester");
    let cfg = config("base", "/audio/lecture.mp3", vec![]);
    let plan = start_job(&mut service, &cfg);
    let probes = vec![ResultProbe {
        file_path: format!("{}/result.srt", plan.files_dir),
        format: "srt".to_string(),
        file_size: None,
    }];
    let r = service
        .history_service
        .register_existing_results(&plan.history_id, probes);
    assert_eq!(r, Err(HistoryError::NotFound));
}
