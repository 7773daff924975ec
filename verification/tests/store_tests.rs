use whisper_jobs::errors::HistoryError;
use whisper_jobs::models::TranscriptionHistory;
use whisper_jobs::models::TranscriptionResult;
use whisper_jobs::models::TranscriptionStatus;
use whisper_jobs::store::HistoryService;

fn empty_store() -> HistoryService {
    HistoryService::new("/home/tester")
}

#[test]
fn store_paths_follow_home_directory() {
    let store = empty_store();
    assert_eq!(store.whisper_gui_dir, "/home/tester/.whisper-gui");
    assert_eq!(store.results_dir, "/home/tester/.whisper-gui/results");
    assert_eq!(store.history_index_file, "/home/tester/.whisper-gui/history.json");
    assert_eq!(store.get_history_directory("abc"), "/home/tester/.whisper-gui/results/abc");
    assert_eq!(
        store.get_result_file_path("abc", "srt"),
        "/home/tester/.whisper-gui/results/abc/files/result.srt"
    );
    assert_eq!(
        store.get_metadata_file_path("abc"),
        "/home/tester/.whisper-gui/results/abc/metadata.json"
    );
}

#[test]
fn created_job_is_running_and_loadable() {
    let mut store = empty_store();
    let record = store.create_history_entry(
        "talk.wav".to_string(),
        "/audio/talk.wav".to_string(),
        "base".to_string(),
        Vec::new(),
    );
    assert_eq!(record.id.len(), 36);
    assert!(matches!(record.status, TranscriptionStatus::Running));
    assert!(record.results.is_empty());
    assert!(record.completed_at.is_none());
    assert!(record.duration_seconds.is_none());
    let loaded = store.load_history_metadata(&record.id).expect("created job must load");
    assert!(matches!(loaded.status, TranscriptionStatus::Running));
    assert!(loaded.results.is_empty());
    assert!(loaded.completed_at.is_none());
    assert_eq!(loaded, record);
}

#[test]
fn save_then_load_round_trips_a_record() {
    let mut store = empty_store();
    let mut record = store.create_history_entry(
        "talk.wav".to_string(),
        "/audio/talk.wav".to_string(),
        "small".to_string(),
        vec![("language".to_string(), "en".to_string())],
    );
    record.tags = vec!["meeting".to_string(), "draft".to_string()];
    record.notes = Some("first pass".to_string());
    record = record.add_result(TranscriptionResult {
        file_path: "/somewhere/result.srt".to_string(),
        format: "srt".to_string(),
        file_size: 321,
        created_at: "2024-01-02T03:04:05+00:00".to_string(),
    });
    store.save_history_metadata(&record);
    let loaded = store.load_history_metadata(&record.id).expect("saved job must load");
    assert_eq!(loaded, record);
}

#[test]
fn load_of_unknown_id_is_not_found() {
    let store = empty_store();
    assert_eq!(store.load_history_metadata("missing"), Err(HistoryError::NotFound));
    assert_eq!(store.get_history("missing"), Err(HistoryError::NotFound));
}

#[test]
fn delete_removes_record_and_index_entry() {
    let mut store = empty_store();
    let keep = store.create_history_entry(
        "a.wav".to_string(),
        "/a.wav".to_string(),
        "base".to_string(),
        Vec::new(),
    );
    let gone = store.create_history_entry(
        "b.wav".to_string(),
        "/b.wav".to_string(),
        "base".to_string(),
        Vec::new(),
    );
    store.delete_history(&gone.id);
    assert_eq!(store.load_history_metadata(&gone.id), Err(HistoryError::NotFound));
    let all = store.list_history(whisper_jobs::query::HistoryQuery {
        limit: None,
        offset: None,
        search: None,
        model_filter: None,
        format_filter: None,
        tag_filter: None,
        status_filter: None,
        date_from: None,
        date_to: None,
    });
    assert_eq!(all.total_count, 1);
    assert!(all.items.iter().all(|item| item.id != gone.id));
    assert!(all.items.iter().any(|item| item.id == keep.id));
}

#[test]
fn delete_of_unknown_id_is_a_no_op() {
    let mut store = empty_store();
    let record = store.create_history_entry(
        "a.wav".to_string(),
        "/a.wav".to_string(),
        "base".to_string(),
        Vec::new(),
    );
    store.delete_history("not-there");
    assert!(store.load_history_metadata(&record.id).is_ok());
}

#[test]
fn mark_completed_sets_terminal_state_and_duration() {
    let mut store = empty_store();
    let record = store.create_history_entry(
        "a.wav".to_string(),
        "/a.wav".to_string(),
        "base".to_string(),
        Vec::new(),
    );
    let done = store.mark_history_completed(&record.id).expect("known id completes");
    assert!(matches!(done.status, TranscriptionStatus::Completed));
    assert!(done.completed_at.is_some());
    assert!(done.duration_seconds.is_some());
    assert!(done.duration_seconds.unwrap() >= 0);
    let loaded = store.load_history_metadata(&record.id).unwrap();
    assert_eq!(loaded, done);
}

#[test]
fn mark_completed_without_parseable_creation_time_leaves_duration_absent() {
    let record = TranscriptionHistory {
        created_at: "not a timestamp".to_string(),
        ..fresh_record()
    };
    let done = record.mark_completed();
    assert!(matches!(done.status, TranscriptionStatus::Completed));
    assert!(done.completed_at.is_some());
    assert!(done.duration_seconds.is_none());
}

#[test]
fn mark_failed_records_the_message() {
    let mut store = empty_store();
    let record = store.create_history_entry(
        "a.wav".to_string(),
        "/a.wav".to_string(),
        "base".to_string(),
        Vec::new(),
    );
    let failed = store
        .mark_history_failed(&record.id, "boom".to_string())
        .expect("known id fails");
    assert!(matches!(failed.status, TranscriptionStatus::Failed));
    assert!(failed.completed_at.is_some());
    assert_eq!(failed.error_message, Some("boom".to_string()));
    assert_eq!(store.load_history_metadata(&record.id).unwrap(), failed);
}

#[test]
fn mark_on_unknown_id_is_not_found() {
    let mut store = empty_store();
    assert_eq!(store.mark_history_completed("nope"), Err(HistoryError::NotFound));
    assert_eq!(
        store.mark_history_failed("nope", "msg".to_string()),
        Err(HistoryError::NotFound)
    );
}

#[test]
fn tags_and_notes_stay_editable() {
    let mut store = empty_store();
    let record = store.create_history_entry(
        "a.wav".to_string(),
        "/a.wav".to_string(),
        "base".to_string(),
        Vec::new(),
    );
    let tagged = store
        .update_history_tags(&record.id, vec!["talk".to_string()])
        .expect("known id");
    assert_eq!(tagged.tags, vec!["talk".to_string()]);
    let noted = store
        .update_history_notes(&record.id, Some("check later".to_string()))
        .expect("known id");
    assert_eq!(noted.notes, Some("check later".to_string()));
    assert_eq!(noted.tags, vec!["talk".to_string()]);
    let loaded = store.load_history_metadata(&record.id).unwrap();
    assert_eq!(loaded.notes, Some("check later".to_string()));
    assert!(matches!(loaded.status, TranscriptionStatus::Running));
}

#[test]
fn total_size_and_formats_follow_results() {
    let mut record = fresh_record();
    record = record.add_result(entry("srt", 100));
    record = record.add_result(entry("txt", 20));
    assert_eq!(record.total_file_size(), 120);
    assert_eq!(record.get_formats(), vec!["srt".to_string(), "txt".to_string()]);
}

#[test]
fn well_formed_check_matches_record_shape() {
    let record = fresh_record();
    assert!(record.check_well_formed());
    let mut broken = fresh_record();
    broken.status = TranscriptionStatus::Failed;
    assert!(!broken.check_well_formed());
}

fn fresh_record() -> TranscriptionHistory {
    TranscriptionHistory::new(
        "a.wav".to_string(),
        "/a.wav".to_string(),
        "base".to_string(),
        Vec::new(),
    )
}

fn entry(format: &str, size: u64) -> TranscriptionResult {
    TranscriptionResult {
        file_path: format!("/files/result.{}", format),
        format: format.to_string(),
        file_size: size,
        created_at: "2024-01-02T03:04:05+00:00".to_string(),
    }
}
