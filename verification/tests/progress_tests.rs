use whisper_jobs::progress::parse_timestamp_millis;
use whisper_jobs::progress::parse_whisper_output_line;

#[test]
fn timestamp_range_line_yields_time_and_progress() {
    let line = "[00:01:23.456 --> 00:01:25.789]  some spoken words";
    let p = parse_whisper_output_line(line).expect("recognized shape");
    assert_eq!(p.current_time_millis, Some(83456));
    // 83.456 s of an assumed 300 s: 83456 / 300 = 278 permille.
    assert_eq!(p.progress_permille, 278);
    assert_eq!(p.message, line);
}

#[test]
fn timestamp_beyond_the_assumed_length_is_clamped() {
    let line = "[01:40:00.000 --> 01:40:05.000] late words";
    let p = parse_whisper_output_line(line).expect("recognized shape");
    assert_eq!(p.current_time_millis, Some(6_000_000));
    assert_eq!(p.progress_permille, 1000);
}

#[test]
fn percentage_line_yields_progress_only() {
    let p = parse_whisper_output_line("progress: [45%]").expect("recognized shape");
    assert_eq!(p.progress_permille, 450);
    assert_eq!(p.current_time_millis, None);
    assert_eq!(p.message, "progress: [45%]");
}

#[test]
fn fractional_percentage_keeps_one_digit() {
    let p = parse_whisper_output_line("[45.57%]").expect("recognized shape");
    assert_eq!(p.progress_permille, 455);
}

#[test]
fn completion_marker_is_full_progress() {
    let p = parse_whisper_output_line("whisper_print_timings: total time = 1000 ms")
        .expect("marker");
    assert_eq!(p.progress_permille, 1000);
    assert_eq!(p.current_time_millis, None);
    assert_eq!(p.message, "processing complete");
}

#[test]
fn loading_marker_is_a_tenth() {
    let p = parse_whisper_output_line("whisper_init_from_file: loading...").expect("marker");
    assert_eq!(p.progress_permille, 100);
    assert_eq!(p.message, "loading model...");
}

#[test]
fn unrecognized_lines_yield_nothing() {
    assert!(parse_whisper_output_line("just some text").is_none());
    assert!(parse_whisper_output_line("[broken --> timestamp]").is_none());
    assert!(parse_whisper_output_line("[not a percent]").is_none());
    assert!(parse_whisper_output_line("").is_none());
}

#[test]
fn broken_timestamp_falls_through_to_the_percentage_branch() {
    // The arrow makes this a timestamp candidate, but its bracket span is
    // no timestamp; the percentage between the brackets still counts.
    let p = parse_whisper_output_line("[45%] --> done").expect("percentage applies");
    assert_eq!(p.progress_permille, 450);
    assert_eq!(p.current_time_millis, None);
}

#[test]
fn full_percentage_is_full_progress() {
    let p = parse_whisper_output_line("[100%]").expect("recognized shape");
    assert_eq!(p.progress_permille, 1000);
}

#[test]
fn timestamps_parse_to_milliseconds() {
    assert_eq!(parse_timestamp_millis("00:01:23.456"), Some(83456));
    assert_eq!(parse_timestamp_millis("01:00:00"), Some(3_600_000));
    assert_eq!(parse_timestamp_millis("00:00:05.5"), Some(5500));
    assert_eq!(parse_timestamp_millis("0:0:0"), Some(0));
    assert_eq!(parse_timestamp_millis("no colons"), None);
    assert_eq!(parse_timestamp_millis("1:2"), None);
    assert_eq!(parse_timestamp_millis("1:2:3:4"), None);
    assert_eq!(parse_timestamp_millis("aa:bb:cc"), None);
}

#[test]
fn bracket_content_is_trimmed_before_parsing() {
    let line = "[ 00:00:30.000  --> 00:00:31.000]";
    let p = parse_whisper_output_line(line).expect("recognized shape");
    assert_eq!(p.current_time_millis, Some(30000));
    assert_eq!(p.progress_permille, 100);
}
