use whisper_jobs::errors::HistoryError;
use whisper_jobs::util::file_base_name;
use whisper_jobs::util::is_audio_file;

#[test]
fn audio_extensions_are_recognized() {
    assert!(is_audio_file("lecture.mp3"));
    assert!(is_audio_file("/tmp/audio/talk.wav"));
    assert!(is_audio_file("song.m4a"));
    assert!(is_audio_file("a.flac"));
    assert!(is_audio_file("b.aac"));
    assert!(is_audio_file("c.ogg"));
}

#[test]
fn extension_case_does_not_matter() {
    assert!(is_audio_file("LECTURE.MP3"));
    assert!(is_audio_file("Mixed.Wav"));
}

#[test]
fn non_audio_paths_are_rejected() {
    assert!(!is_audio_file("notes.txt"));
    assert!(!is_audio_file("archive.mp3.zip"));
    assert!(!is_audio_file("noextension"));
    assert!(!is_audio_file(".mp3"));
    assert!(!is_audio_file("dir.mp3/file"));
    assert!(!is_audio_file(""));
}

#[test]
fn base_name_takes_the_last_path_segment() {
    assert_eq!(file_base_name("/audio/dir/talk.mp3"), "talk.mp3");
    assert_eq!(file_base_name("talk.mp3"), "talk.mp3");
    assert_eq!(file_base_name("/audio/dir/"), "unknown");
    assert_eq!(file_base_name(""), "unknown");
}

#[test]
fn every_error_kind_describes_itself() {
    let errors = vec![
        HistoryError::NotFound,
        HistoryError::Io("disk full".to_string()),
        HistoryError::EngineNotFound,
        HistoryError::Process("exit 1".to_string()),
        HistoryError::Serialization("bad json".to_string()),
        HistoryError::Validation,
    ];
    for e in errors {
        assert!(!e.describe().is_empty());
    }
}
