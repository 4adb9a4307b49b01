use clip_flow::media::FFmpegService;
use clip_flow::progress::{extraction_percent, overall_progress, parse_engine_progress, parse_out_time, PipelineStage};

#[test]
fn engine_progress_lines() {
    assert_eq!(parse_engine_progress("whisper_print_progress_callback: progress = 45%"), Some(45));
    assert_eq!(parse_engine_progress("progress = 100%"), Some(100));
    assert_eq!(parse_engine_progress("progress=7"), Some(7));
    assert_eq!(parse_engine_progress("progress = 5%%"), Some(5));
}

#[test]
fn engine_noise_lines_are_ignored() {
    assert_eq!(parse_engine_progress("whisper_init_from_file: loading model"), None);
    assert_eq!(parse_engine_progress("progress"), None);
    assert_eq!(parse_engine_progress("progress = abc%"), None);
    assert_eq!(parse_engine_progress("status = 45%"), None);
    assert_eq!(parse_engine_progress("progress = %"), None);
}

#[test]
fn transcoder_progress_lines() {
    assert_eq!(parse_out_time("out_time_ms=1500000"), Some(1_500_000));
    assert_eq!(parse_out_time("out_time_ms=-9223372036854775807"), Some(0));
    assert_eq!(parse_out_time("out_time_ms=N/A"), None);
    assert_eq!(parse_out_time("out_time=00:00:01.500000"), None);
    assert_eq!(parse_out_time("progress=continue"), None);
}

#[test]
fn extraction_percentages() {
    assert_eq!(extraction_percent(60_000_000, 120_000_000), 50);
    assert_eq!(extraction_percent(119_000_000, 120_000_000), 99);
    assert_eq!(extraction_percent(200_000_000, 120_000_000), 100);
    assert_eq!(extraction_percent(0, 120_000_000), 0);
    assert_eq!(extraction_percent(5, 0), 100);
}

#[test]
fn extraction_at_120_seconds_stays_under_30_then_transcription_fills_30_to_100() {
    let duration = FFmpegService::parse_duration("120.000000\n").unwrap();
    assert_eq!(duration, 120_000_000);
    let mut last = 0;
    for sec in [0u64, 10, 30, 60, 90, 119, 120, 130] {
        let line = format!("out_time_ms={}", sec * 1_000_000);
        let p = FFmpegService::progress_for_line(&line, duration).unwrap();
        let overall = overall_progress(PipelineStage::Extracting, p);
        assert!(overall >= last);
        assert!(overall <= 30);
        last = overall;
    }
    assert_eq!(last, 30);
    for p in [0u64, 1, 50, 99, 100, 150] {
        let overall = overall_progress(PipelineStage::Transcribing, p);
        assert!((30..=100).contains(&overall));
    }
    assert_eq!(overall_progress(PipelineStage::Transcribing, 0), 30);
    assert_eq!(overall_progress(PipelineStage::Transcribing, 50), 65);
    assert_eq!(overall_progress(PipelineStage::Transcribing, 100), 100);
    assert_eq!(overall_progress(PipelineStage::Complete, 0), 100);
}

#[test]
fn stage_names() {
    assert_eq!(PipelineStage::Extracting.as_str(), "extracting");
    assert_eq!(PipelineStage::Transcribing.as_str(), "transcribing");
    assert_eq!(PipelineStage::Complete.as_str(), "complete");
}
