use whisper_jobs::models::TranscriptionHistory;
use whisper_jobs::models::TranscriptionResult;
use whisper_jobs::models::TranscriptionStatus;
use whisper_jobs::query::HistoryQuery;
use whisper_jobs::store::HistoryService;

fn no_filters() -> HistoryQuery {
    HistoryQuery {
        limit: None,
        offset: None,
        search: None,
        model_filter: None,
        format_filter: None,
        tag_filter: None,
        status_filter: None,
        date_from: None,
        date_to: None,
    }
}

fn record(name: &str, model: &str, created_at: &str) -> TranscriptionHistory {
    let mut r = TranscriptionHistory::new(
        name.to_string(),
        format!("/audio/{}", name),
        model.to_string(),
        Vec::new(),
    );
    r.created_at = created_at.to_string();
    r
}

fn store_with(records: Vec<TranscriptionHistory>) -> HistoryService {
    let mut store = HistoryService::new("/home/tester");
    for r in &records {
        store.save_history_metadata(r);
        store.update_history_index(r);
    }
    store
}

#[test]
fn identical_queries_return_identical_results() {
    let store = store_with(vec![
        record("a.wav", "base", "2024-01-01T10:00:00+00:00"),
        record("b.wav", "small", "2024-01-02T10:00:00+00:00"),
        record("c.wav", "base", "2024-01-03T10:00:00+00:00"),
    ]);
    let q1 = HistoryQuery { model_filter: Some("base".to_string()), ..no_filters() };
    let q2 = HistoryQuery { model_filter: Some("base".to_string()), ..no_filters() };
    let r1 = store.list_history(q1);
    let r2 = store.list_history(q2);
    assert_eq!(r1, r2);
}

#[test]
fn results_come_newest_first() {
    let store = store_with(vec![
        record("old.wav", "base", "2024-01-01T10:00:00+00:00"),
        record("newest.wav", "base", "2024-03-01T10:00:00+00:00"),
        record("middle.wav", "base", "2024-02-01T10:00:00+00:00"),
    ]);
    let r = store.list_history(no_filters());
    let names: Vec<&str> = r.items.iter().map(|i| i.original_file_name.as_str()).collect();
    assert_eq!(names, vec!["newest.wav", "middle.wav", "old.wav"]);
    assert_eq!(r.total_count, 3);
    assert!(!r.has_more);
}

#[test]
fn pagination_counts_are_exact() {
    let mut records = Vec::new();
    for i in 0..5 {
        records.push(record(
            &format!("r{}.wav", i),
            "base",
            &format!("2024-01-0{}T10:00:00+00:00", i + 1),
        ));
    }
    let store = store_with(records);

    let page = store.list_history(HistoryQuery {
        limit: Some(2),
        offset: Some(0),
        ..no_filters()
    });
    assert_eq!(page.items.len(), 2);
    assert_eq!(page.total_count, 5);
    assert!(page.has_more);

    let tail = store.list_history(HistoryQuery {
        limit: Some(2),
        offset: Some(4),
        ..no_filters()
    });
    assert_eq!(tail.items.len(), 1);
    assert_eq!(tail.total_count, 5);
    assert!(!tail.has_more);

    let past_end = store.list_history(HistoryQuery {
        limit: Some(2),
        offset: Some(7),
        ..no_filters()
    });
    assert!(past_end.items.is_empty());
    assert_eq!(past_end.total_count, 5);
    assert!(!past_end.has_more);
}

#[test]
fn model_filter_keeps_only_that_model() {
    let store = store_with(vec![
        record("a.wav", "base", "2024-01-01T10:00:00+00:00"),
        record("b.wav", "small", "2024-01-02T10:00:00+00:00"),
        record("c.wav", "base", "2024-01-03T10:00:00+00:00"),
    ]);
    let r = store.list_history(HistoryQuery {
        model_filter: Some("base".to_string()),
        ..no_filters()
    });
    assert_eq!(r.total_count, 2);
    assert!(r.items.iter().all(|i| i.model_used == "base"));
}

#[test]
fn date_from_after_everything_matches_nothing() {
    let store = store_with(vec![
        record("a.wav", "base", "2024-01-01T10:00:00+00:00"),
        record("b.wav", "base", "2024-01-02T10:00:00+00:00"),
    ]);
    let r = store.list_history(HistoryQuery {
        date_from: Some("2025-01-01T00:00:00+00:00".to_string()),
        ..no_filters()
    });
    assert_eq!(r.total_count, 0);
    assert!(r.items.is_empty());
    assert!(!r.has_more);
}

#[test]
fn date_range_is_inclusive() {
    let store = store_with(vec![
        record("a.wav", "base", "2024-01-01T10:00:00+00:00"),
        record("b.wav", "base", "2024-01-02T10:00:00+00:00"),
        record("c.wav", "base", "2024-01-03T10:00:00+00:00"),
    ]);
    let r = store.list_history(HistoryQuery {
        date_from: Some("2024-01-02T10:00:00+00:00".to_string()),
        date_to: Some("2024-01-03T10:00:00+00:00".to_string()),
        ..no_filters()
    });
    assert_eq!(r.total_count, 2);
}

#[test]
fn search_is_case_insensitive_substring() {
    let store = store_with(vec![
        record("Lecture-One.mp3", "base", "2024-01-01T10:00:00+00:00"),
        record("song.mp3", "base", "2024-01-02T10:00:00+00:00"),
    ]);
    let r = store.list_history(HistoryQuery {
        search: Some("LECTURE".to_string()),
        ..no_filters()
    });
    assert_eq!(r.total_count, 1);
    assert_eq!(r.items[0].original_file_name, "Lecture-One.mp3");
    let none = store.list_history(HistoryQuery {
        search: Some("missing".to_string()),
        ..no_filters()
    });
    assert_eq!(none.total_count, 0);
}

#[test]
fn format_filter_looks_into_results() {
    let mut with_srt = record("a.wav", "base", "2024-01-01T10:00:00+00:00");
    with_srt = with_srt.add_result(TranscriptionResult {
        file_path: "/r/result.srt".to_string(),
        format: "srt".to_string(),
        file_size: 10,
        created_at: "2024-01-01T11:00:00+00:00".to_string(),
    });
    let without = record("b.wav", "base", "2024-01-02T10:00:00+00:00");
    let store = store_with(vec![with_srt, without]);
    let r = store.list_history(HistoryQuery {
        format_filter: Some("srt".to_string()),
        ..no_filters()
    });
    assert_eq!(r.total_count, 1);
    assert_eq!(r.items[0].original_file_name, "a.wav");
}

#[test]
fn tag_and_status_filters_match_exactly() {
    let mut tagged = record("a.wav", "base", "2024-01-01T10:00:00+00:00");
    tagged.tags = vec!["work".to_string()];
    let plain = record("b.wav", "base", "2024-01-02T10:00:00+00:00");
    let store = store_with(vec![tagged, plain]);

    let by_tag = store.list_history(HistoryQuery {
        tag_filter: Some("work".to_string()),
        ..no_filters()
    });
    assert_eq!(by_tag.total_count, 1);
    assert_eq!(by_tag.items[0].original_file_name, "a.wav");

    let by_status = store.list_history(HistoryQuery {
        status_filter: Some(TranscriptionStatus::Running),
        ..no_filters()
    });
    assert_eq!(by_status.total_count, 2);
    let none = store.list_history(HistoryQuery {
        status_filter: Some(TranscriptionStatus::Completed),
        ..no_filters()
    });
    assert_eq!(none.total_count, 0);
}

#[test]
fn equal_timestamps_keep_their_insertion_order() {
    let stamp = "2024-01-01T10:00:00+00:00";
    let store = store_with(vec![
        record("first.wav", "base", stamp),
        record("second.wav", "base", stamp),
        record("third.wav", "base", stamp),
    ]);
    let r = store.list_history(no_filters());
    let names: Vec<&str> = r.items.iter().map(|i| i.original_file_name.as_str()).collect();
    assert_eq!(names, vec!["first.wav", "second.wav", "third.wav"]);
}

#[test]
fn default_limit_is_fifty() {
    let mut records = Vec::new();
    for i in 0..60 {
        records.push(record(
            &format!("r{}.wav", i),
            "base",
            &format!("2024-01-01T10:{:02}:00+00:00", i),
        ));
    }
    let store = store_with(records);
    let r = store.list_history(no_filters());
    assert_eq!(r.items.len(), 50);
    assert_eq!(r.total_count, 60);
    assert!(r.has_more);
}
