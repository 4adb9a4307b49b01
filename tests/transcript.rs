use clip_flow::error::AppError;
use clip_flow::transcript::{build_result, parse_engine_output, parse_timestamp, EngineOutput, RawSegment};

fn raw(from: Option<&str>, to: Option<&str>, from_ms: Option<i64>, to_ms: Option<i64>, text: Option<&str>) -> RawSegment {
    RawSegment {
        from_stamp: from.map(|s| s.to_string()),
        to_stamp: to.map(|s| s.to_string()),
        from_offset: from_ms,
        to_offset: to_ms,
        text: text.map(|s| s.to_string()),
    }
}

#[test]
fn timestamp_with_comma_and_dot() {
    assert_eq!(parse_timestamp("00:01:23,456"), Some(83_456));
    assert_eq!(parse_timestamp("00:01:23.456"), Some(83_456));
}

#[test]
fn timestamp_hours_and_short_fraction() {
    assert_eq!(parse_timestamp("01:00:00,000"), Some(3_600_000));
    assert_eq!(parse_timestamp("00:00:01.5"), Some(1_500));
    assert_eq!(parse_timestamp("00:00:07"), Some(7_000));
    assert_eq!(parse_timestamp("00:00:01.23456"), Some(1_234));
}

#[test]
fn timestamp_rejects_malformed() {
    assert_eq!(parse_timestamp(""), None);
    assert_eq!(parse_timestamp("01:23,456"), None);
    assert_eq!(parse_timestamp("00:01:23:456"), None);
    assert_eq!(parse_timestamp("aa:01:23,456"), None);
    assert_eq!(parse_timestamp("00:01:23,"), None);
    assert_eq!(parse_timestamp("00:01:23;456"), None);
}

#[test]
fn offset_fallback_in_milliseconds() {
    let out = EngineOutput {
        segments: Some(vec![raw(None, None, Some(83_456), Some(90_000), Some("hi"))]),
        language: None,
    };
    let r = build_result(&out);
    assert_eq!(r.segments[0].start_ms, 83_456);
    assert_eq!(r.segments[0].end_ms, 90_000);
}

#[test]
fn formatted_timestamp_is_preferred_over_offset() {
    let out = EngineOutput {
        segments: Some(vec![raw(Some("00:00:02,000"), Some("garbage"), Some(1), Some(3_500), Some("x"))]),
        language: None,
    };
    let r = build_result(&out);
    assert_eq!(r.segments[0].start_ms, 2_000);
    assert_eq!(r.segments[0].end_ms, 3_500);
}

#[test]
fn end_before_start_is_raised_to_start() {
    let out = EngineOutput {
        segments: Some(vec![raw(None, None, Some(5_000), Some(1_000), Some("x")), raw(None, None, Some(-7), None, Some("y"))]),
        language: None,
    };
    let r = build_result(&out);
    assert_eq!(r.segments[0].start_ms, 5_000);
    assert_eq!(r.segments[0].end_ms, 5_000);
    assert_eq!(r.segments[1].start_ms, 0);
    assert_eq!(r.segments[1].end_ms, 0);
}

#[test]
fn empty_text_segments_are_dropped() {
    let json = r#"{"transcription":[
        {"timestamps":{"from":"00:00:00,000","to":"00:00:01,000"},"offsets":{"from":0,"to":1000},"text":"Hello"},
        {"timestamps":{"from":"00:00:01,000","to":"00:00:02,000"},"offsets":{"from":1000,"to":2000},"text":""},
        {"timestamps":{"from":"00:00:02,000","to":"00:00:03,500"},"offsets":{"from":2000,"to":3500},"text":"world"}
    ]}"#;
    let r = parse_engine_output(json).unwrap();
    assert_eq!(r.segments.len(), 2);
    assert_eq!(r.segments[0].text, "Hello");
    assert_eq!(r.segments[1].text, "world");
    assert_eq!(r.full_text, "Hello world");
    assert_eq!(r.duration_ms, 3_500);
}

#[test]
fn texts_are_trimmed_and_joined_by_single_spaces() {
    let json = r#"{"transcription":[
        {"offsets":{"from":0,"to":1000},"text":"  Hello there "},
        {"offsets":{"from":1000,"to":2000},"text":"   "},
        {"offsets":{"from":2000,"to":2500},"text":"\tworld\n"}
    ],"result":{"language":"en"}}"#;
    let r = parse_engine_output(json).unwrap();
    assert_eq!(r.segments.len(), 2);
    assert_eq!(r.segments[0].text, "Hello there");
    assert_eq!(r.segments[1].text, "world");
    assert_eq!(r.full_text, "Hello there world");
    assert_eq!(r.language.as_deref(), Some("en"));
    assert_eq!(r.duration_ms, 2_500);
    for s in &r.segments {
        assert!(s.end_ms >= s.start_ms);
        assert!(!s.text.trim().is_empty());
    }
}

#[test]
fn zero_segments_is_a_valid_empty_result() {
    let r = parse_engine_output(r#"{"transcription":[]}"#).unwrap();
    assert!(r.segments.is_empty());
    assert_eq!(r.full_text, "");
    assert_eq!(r.duration_ms, 0);
    assert!(r.language.is_none());
    let r = parse_engine_output(r#"{"result":{"language":"ko"}}"#).unwrap();
    assert!(r.segments.is_empty());
    assert_eq!(r.language.as_deref(), Some("ko"));
}

#[test]
fn segment_without_times_starts_at_zero() {
    let r = parse_engine_output(r#"{"transcription":[{"text":"only text"}]}"#).unwrap();
    assert_eq!(r.segments[0].start_ms, 0);
    assert_eq!(r.segments[0].end_ms, 0);
    assert_eq!(r.duration_ms, 0);
}

#[test]
fn unparsable_output_is_a_transcription_failure() {
    match parse_engine_output("not json") {
        Err(AppError::Whisper(_)) => {}
        other => panic!("unexpected: {:?}", other),
    }
}

#[test]
fn fields_of_other_types_are_absent() {
    let json = r#"{"transcription":[{"timestamps":{"from":5,"to":"00:00:01,000"},"offsets":{"from":"7","to":2.5},"text":"a"},
        {"offsets":{"from":100,"to":200},"text":42}],"result":{"language":1}}"#;
    let r = parse_engine_output(json).unwrap();
    assert_eq!(r.segments.len(), 1);
    assert_eq!(r.segments[0].start_ms, 0);
    assert_eq!(r.segments[0].end_ms, 1_000);
    assert!(r.language.is_none());
}
