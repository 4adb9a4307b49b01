use clip_flow::error::AppError;
use clip_flow::locator::{engine_candidates, engine_search_names, first_existing, locate, media_tool_candidates, LocatorEnv, Platform};
use clip_flow::media::FFmpegService;
use clip_flow::whisper::{Arch, WhisperService};

#[test]
fn extraction_arguments_are_mono_16k_pcm() {
    let args = FFmpegService::extraction_args("/in/movie.mp4", "/tmp/a.wav");
    assert_eq!(
        args,
        vec!["-i", "/in/movie.mp4", "-vn", "-acodec", "pcm_s16le", "-ar", "16000", "-ac", "1", "-y", "-progress", "pipe:1", "/tmp/a.wav"]
    );
    assert_eq!(FFmpegService::probe_args("/x.mp4").last().unwrap(), "/x.mp4");
    assert_eq!(FFmpegService::duration_args("/x.mp4")[3], "format=duration");
}

#[test]
fn probe_output_is_read() {
    let json = r#"{"streams":[{"codec_type":"video"},{"codec_type":"audio"}],"format":{"format_name":"mov,mp4","duration":"12.500000"}}"#;
    let info = FFmpegService::parse_media_info(json).unwrap();
    assert_eq!(info.format, "mov,mp4");
    assert_eq!(info.duration_us, 12_500_000);
    assert!(info.has_video && info.has_audio);
    assert!(FFmpegService::require_audio(&info).is_ok());

    let info = FFmpegService::parse_media_info(r#"{"streams":[{"codec_type":"video"}]}"#).unwrap();
    assert_eq!(info.format, "unknown");
    assert_eq!(info.duration_us, 0);
    assert!(!info.has_audio);
    assert!(matches!(FFmpegService::require_audio(&info), Err(AppError::NoAudioStream)));
    assert!(matches!(FFmpegService::parse_media_info("{"), Err(AppError::FFmpeg(_))));
}

#[test]
fn duration_output_is_read() {
    assert_eq!(FFmpegService::parse_duration(" 3.25\n").unwrap(), 3_250_000);
    assert_eq!(FFmpegService::parse_duration("7").unwrap(), 7_000_000);
    assert!(matches!(FFmpegService::parse_duration("N/A"), Err(AppError::FFmpeg(_))));
    assert!(matches!(FFmpegService::parse_duration(""), Err(AppError::FFmpeg(_))));
}

#[test]
fn extraction_exit_status() {
    assert_eq!(FFmpegService::extraction_finished(true, "/tmp/a.wav").unwrap(), "/tmp/a.wav");
    assert!(matches!(FFmpegService::extraction_finished(false, "/tmp/a.wav"), Err(AppError::FFmpeg(_))));
}

#[test]
fn version_line_is_first_line() {
    assert_eq!(FFmpegService::version_line("ffmpeg version 6.1\r\nbuilt with gcc\n"), "ffmpeg version 6.1");
    assert_eq!(FFmpegService::version_line("one line"), "one line");
    assert_eq!(FFmpegService::version_line(""), "unknown");
}

#[test]
fn media_tool_candidates_by_platform() {
    let env = LocatorEnv { platform: Platform::MacOs, exe_dir: None, data_local_dir: None, program_files: None };
    assert_eq!(
        media_tool_candidates(&env, "ffprobe", vec!["/bin/ffprobe".to_string()]),
        vec!["/opt/homebrew/bin/ffprobe", "/usr/local/bin/ffprobe", "/bin/ffprobe"]
    );
    let env = LocatorEnv { platform: Platform::Linux, exe_dir: None, data_local_dir: None, program_files: None };
    assert_eq!(media_tool_candidates(&env, "ffmpeg", Vec::new()), vec!["/usr/bin/ffmpeg", "/usr/local/bin/ffmpeg"]);
    let env = LocatorEnv { platform: Platform::Other, exe_dir: None, data_local_dir: None, program_files: None };
    assert!(media_tool_candidates(&env, "ffmpeg", Vec::new()).is_empty());
}

#[test]
fn engine_candidates_in_order() {
    let env = LocatorEnv {
        platform: Platform::MacOs,
        exe_dir: Some("/app".to_string()),
        data_local_dir: Some("/data".to_string()),
        program_files: None,
    };
    let c = engine_candidates(&env, vec!["/usr/bin/main".to_string()]);
    assert_eq!(
        c,
        vec![
            "/app/whisper-cpp",
            "/data/clip-flow/bin/whisper-cpp",
            "/opt/homebrew/bin/whisper-cli",
            "/usr/local/bin/whisper-cli",
            "/opt/homebrew/bin/whisper-cpp",
            "/usr/local/bin/whisper-cpp",
            "/usr/bin/main",
        ]
    );
    assert_eq!(engine_search_names(Platform::Linux), vec!["whisper-cli", "whisper-cpp", "main"]);
    assert_eq!(engine_search_names(Platform::Windows), vec!["whisper-cli.exe", "whisper-cpp.exe", "main"]);
}

#[test]
fn first_existing_candidate_wins() {
    let c = vec!["a".to_string(), "b".to_string(), "c".to_string()];
    assert_eq!(first_existing(&vec![false, true, true]), Some(1));
    assert_eq!(locate(&c, &vec![false, false, true]).as_deref(), Some("c"));
    assert_eq!(locate(&c, &vec![false, false, false]), None);
    assert_eq!(first_existing(&Vec::new()), None);
}

#[test]
fn engine_archive_by_platform() {
    let (url, bin) = WhisperService::get_whisper_download_url(Platform::Windows, Arch::X86_64).unwrap();
    assert_eq!(url, "https://github.com/ggml-org/whisper.cpp/releases/download/v1.8.2/whisper-bin-x64.zip");
    assert_eq!(bin, "whisper-cli.exe");
    let (url, _) = WhisperService::get_whisper_download_url(Platform::Windows, Arch::X86).unwrap();
    assert!(url.ends_with("whisper-bin-Win32.zip"));
    assert!(matches!(
        WhisperService::get_whisper_download_url(Platform::MacOs, Arch::Other),
        Err(AppError::UnsupportedPlatform(_))
    ));
    assert!(matches!(
        WhisperService::get_whisper_download_url(Platform::Linux, Arch::X86_64),
        Err(AppError::UnsupportedPlatform(_))
    ));
}

#[test]
fn install_progress_band() {
    assert_eq!(WhisperService::install_download_percent(0, 1_000), 5);
    assert_eq!(WhisperService::install_download_percent(500, 1_000), 40);
    assert_eq!(WhisperService::install_download_percent(2_000, 1_000), 75);
    assert_eq!(WhisperService::install_download_percent(1, 0), 75);
    assert_eq!(WhisperService::install_total(None), 50_000_000);
    assert_eq!(WhisperService::install_total(Some(9)), 9);
}

#[test]
fn engine_entry_in_archive() {
    let names = vec![
        "Release/".to_string(),
        "Release/whisper-cli-docs/".to_string(),
        "Release/ggml.dll".to_string(),
        "Release/whisper-cli.exe".to_string(),
    ];
    assert_eq!(WhisperService::select_engine_entry(&names, "whisper-cli.exe"), Some(3));
    assert!(!WhisperService::is_engine_entry("Release/whisper-cli-docs/", "whisper-cli.exe"));
    assert!(WhisperService::is_engine_entry("bin/whisper-cli", "whisper-cli.exe"));
    assert_eq!(WhisperService::select_engine_entry(&vec!["a.txt".to_string()], "whisper-cli.exe"), None);
    assert_eq!(WhisperService::installed_binary_name(Platform::Windows), "whisper-cpp.exe");
    assert_eq!(WhisperService::installed_binary_name(Platform::Linux), "whisper-cpp");
}

#[test]
fn engine_exit_handling() {
    assert!(matches!(WhisperService::finish_transcription(false, Ok("{}".to_string())), Err(AppError::Whisper(_))));
    assert!(matches!(
        WhisperService::finish_transcription(true, Err(AppError::Io("gone".to_string()))),
        Err(AppError::Whisper(_))
    ));
    let r = WhisperService::finish_transcription(true, Ok(r#"{"transcription":[{"offsets":{"from":0,"to":10},"text":"a"}]}"#.to_string())).unwrap();
    assert_eq!(r.full_text, "a");
    assert!(matches!(WhisperService::finish_transcription(true, Ok("{".to_string())), Err(AppError::Whisper(_))));
}
