use clip_flow::error::AppError;
use clip_flow::media::MediaInfo;
use clip_flow::models::DownloadService;
use clip_flow::pipeline::{PipelineAction, PipelineEvent, RunState, TranscriptionPipeline};
use clip_flow::progress::PipelineStage;
use clip_flow::whisper::WhisperService;

fn info(has_audio: bool) -> MediaInfo {
    MediaInfo { format: "mov".to_string(), duration_us: 120_000_000, has_video: true, has_audio }
}

#[test]
fn no_audio_stream_fails_before_anything_is_spawned() {
    let mut p = TranscriptionPipeline::new();
    let acts = p.step(PipelineEvent::Probed(info(false)));
    assert_eq!(acts.len(), 1);
    assert!(matches!(acts[0], PipelineAction::Fail(AppError::NoAudioStream)));
    assert_eq!(p.state, RunState::Failed);
    assert!(p.step(PipelineEvent::ExtractionEnded(Ok(()))).is_empty());
    assert_eq!(p.state, RunState::Failed);
}

#[test]
fn model_not_installed_fails_without_spawning() {
    let w = WhisperService {
        whisper_cpp_path: Some("/usr/bin/whisper-cli".to_string()),
        download_service: DownloadService::with_directory("/m".to_string()),
    };
    match w.prepare_transcription("/tmp/a.wav", "tiny", &None, false) {
        Err(AppError::ModelNotFound(id)) => assert_eq!(id, "tiny"),
        other => panic!("unexpected: {:?}", other),
    }
}

#[test]
fn missing_engine_is_reported() {
    let w = WhisperService { whisper_cpp_path: None, download_service: DownloadService::with_directory("/m".to_string()) };
    assert!(!w.is_available());
    assert!(matches!(w.prepare_transcription("/tmp/a.wav", "tiny", &None, true), Err(AppError::EngineNotFound)));
}

#[test]
fn engine_run_arguments() {
    let w = WhisperService {
        whisper_cpp_path: Some("/usr/bin/whisper-cli".to_string()),
        download_service: DownloadService::with_directory("/m".to_string()),
    };
    let run = w.prepare_transcription("/tmp/x/a.wav", "base", &Some("ko".to_string()), true).unwrap();
    assert_eq!(run.program, "/usr/bin/whisper-cli");
    assert_eq!(run.output_path, "/tmp/x/a.json");
    assert_eq!(
        run.args,
        vec!["-m", "/m/ggml-base.bin", "-f", "/tmp/x/a.wav", "-oj", "-of", "/tmp/x/a", "-pp", "-l", "ko"]
    );
    let run = w.prepare_transcription("/tmp/x/a.wav", "base", &None, true).unwrap();
    assert_eq!(run.args.len(), 8);
}

#[test]
fn full_run_reports_bands_and_finishes() {
    let mut p = TranscriptionPipeline::new();
    let acts = p.step(PipelineEvent::Probed(info(true)));
    assert!(matches!(acts[0], PipelineAction::Report(PipelineStage::Extracting, 0)));
    match &acts[1] {
        PipelineAction::StartExtraction(name) => {
            assert_eq!(name.len(), 40);
            assert!(name.ends_with(".wav"));
        }
        other => panic!("unexpected: {:?}", other),
    }
    let mut last = 0;
    for e in [0u64, 25, 50, 99, 100] {
        let acts = p.step(PipelineEvent::ExtractionProgress(e));
        match acts[0] {
            PipelineAction::Report(PipelineStage::Extracting, v) => {
                assert!(v >= last && v <= 30);
                last = v;
            }
            ref other => panic!("unexpected: {:?}", other),
        }
    }
    let acts = p.step(PipelineEvent::ExtractionEnded(Ok(())));
    assert!(matches!(acts[0], PipelineAction::Report(PipelineStage::Extracting, 30)));
    assert!(matches!(acts[1], PipelineAction::Report(PipelineStage::Transcribing, 30)));
    assert!(matches!(acts[2], PipelineAction::StartTranscription));
    for e in [0u64, 40, 20, 100] {
        match p.step(PipelineEvent::TranscriptionProgress(e))[0] {
            PipelineAction::Report(PipelineStage::Transcribing, v) => assert!((30..=100).contains(&v)),
            ref other => panic!("unexpected: {:?}", other),
        }
    }
    let json = r#"{"transcription":[{"offsets":{"from":0,"to":1200},"text":" Hi "}]}"#.to_string();
    let acts = p.step(PipelineEvent::EngineExited(true, Ok(json)));
    assert!(matches!(acts[0], PipelineAction::CleanUp));
    assert!(matches!(acts[1], PipelineAction::Report(PipelineStage::Complete, 100)));
    match &acts[2] {
        PipelineAction::Finish(r) => {
            assert_eq!(r.full_text, "Hi");
            assert_eq!(r.duration_ms, 1_200);
        }
        other => panic!("unexpected: {:?}", other),
    }
    assert_eq!(p.state, RunState::Done);
}

#[test]
fn failures_clean_up_the_waveform() {
    let mut p = TranscriptionPipeline::new();
    p.step(PipelineEvent::Probed(info(true)));
    let acts = p.step(PipelineEvent::ExtractionEnded(Err(AppError::FFmpeg("Audio extraction failed".to_string()))));
    assert!(matches!(acts[0], PipelineAction::CleanUp));
    assert!(matches!(acts[1], PipelineAction::Fail(AppError::FFmpeg(_))));

    let mut p = TranscriptionPipeline::new();
    p.step(PipelineEvent::Probed(info(true)));
    p.step(PipelineEvent::ExtractionEnded(Ok(())));
    let acts = p.step(PipelineEvent::EngineExited(false, Ok(String::new())));
    assert!(matches!(acts[0], PipelineAction::CleanUp));
    assert!(matches!(acts[1], PipelineAction::Fail(AppError::Whisper(_))));
    assert_eq!(p.state, RunState::Failed);

    let mut p = TranscriptionPipeline::new();
    p.step(PipelineEvent::Probed(info(true)));
    p.step(PipelineEvent::ExtractionEnded(Ok(())));
    let acts = p.step(PipelineEvent::EngineExited(true, Ok("not json".to_string())));
    assert!(matches!(acts[1], PipelineAction::Fail(AppError::Whisper(_))));

    let mut p = TranscriptionPipeline::new();
    p.step(PipelineEvent::Probed(info(true)));
    p.step(PipelineEvent::ExtractionEnded(Ok(())));
    let acts = p.step(PipelineEvent::TranscriptionFailed(AppError::EngineNotFound));
    assert!(matches!(acts[0], PipelineAction::CleanUp));
    assert!(matches!(acts[1], PipelineAction::Fail(AppError::EngineNotFound)));
}

#[test]
fn probe_failure_is_propagated() {
    let mut p = TranscriptionPipeline::new();
    let acts = p.step(PipelineEvent::ProbeFailed(AppError::FFmpeg("Failed to get media info".to_string())));
    assert_eq!(acts.len(), 1);
    assert!(matches!(acts[0], PipelineAction::Fail(AppError::FFmpeg(_))));
}

#[test]
fn temp_audio_names_are_fresh() {
    let a = TranscriptionPipeline::temp_audio_name();
    let b = TranscriptionPipeline::temp_audio_name();
    assert_ne!(a, b);
    assert!(a.ends_with(".wav"));
}
