use clip_flow::error::AppError;
use clip_flow::models::{
    download_percent_of, find_model, model_file_name_of, model_id_from_file_name, DownloadService,
    DownloadState, FileAction, WhisperModel,
};

#[test]
fn catalog_has_eight_models_in_order() {
    let models = WhisperModel::available_models();
    let ids: Vec<&str> = models.iter().map(|m| m.id.as_str()).collect();
    assert_eq!(ids, vec!["tiny", "base", "small", "medium", "large-v1", "large-v2", "large-v3", "large-v3-turbo"]);
    assert_eq!(models[0].size_bytes, 77_700_000);
    assert_eq!(models[0].size_display, "78 MB");
    assert_eq!(models[7].name, "Large v3 Turbo");
    assert_eq!(models[4].description, "largeV1");
    assert_eq!(
        models[1].url,
        "https://huggingface.co/ggerganov/whisper.cpp/resolve/main/ggml-base.bin"
    );
    assert!(models.iter().all(|m| m.sha256.is_none()));
}

#[test]
fn find_model_by_id() {
    assert_eq!(find_model("medium").unwrap().size_bytes, 1_530_000_000);
    assert!(find_model("huge").is_none());
    assert!(find_model("").is_none());
}

#[test]
fn naming_convention() {
    assert_eq!(model_file_name_of("tiny"), "ggml-tiny.bin");
    assert_eq!(model_id_from_file_name("ggml-tiny.bin").as_deref(), Some("tiny"));
    assert_eq!(model_id_from_file_name("ggml-large-v3-turbo.bin").as_deref(), Some("large-v3-turbo"));
    assert_eq!(model_id_from_file_name("ggml-ggml-x.bin").as_deref(), Some("ggml-x"));
    assert_eq!(model_id_from_file_name("custom.bin"), None);
    assert_eq!(model_id_from_file_name("ggml-tiny.BIN"), None);
    assert_eq!(model_id_from_file_name("ggml-tiny.bin.tmp"), None);
    assert_eq!(model_id_from_file_name(".bin"), None);
    assert_eq!(model_id_from_file_name("notes.txt"), None);
}

#[test]
fn installed_models_from_directory_listing() {
    let names = vec![
        "ggml-base.bin".to_string(),
        "ggml-small.bin.tmp".to_string(),
        "readme.md".to_string(),
        "foo.bin".to_string(),
        "ggml-tiny.bin".to_string(),
    ];
    assert_eq!(DownloadService::get_installed_models(&names), vec!["base".to_string(), "tiny".to_string()]);
    assert!(DownloadService::get_installed_models(&Vec::new()).is_empty());
}

#[test]
fn model_paths_and_status() {
    let store = DownloadService::with_directory("/data/models".to_string());
    assert_eq!(store.get_model_path("tiny"), "/data/models/ggml-tiny.bin");
    let status = store.models_status(&vec!["small".to_string()]);
    assert_eq!(status.len(), 8);
    assert!(!status[0].installed);
    assert!(status[0].path.is_none());
    assert!(status[2].installed);
    assert_eq!(status[2].path.as_deref(), Some("/data/models/ggml-small.bin"));
}

#[test]
fn delete_is_idempotent() {
    let store = DownloadService::with_directory("/data/models".to_string());
    match store.delete_model("tiny", true) {
        FileAction::Remove(p) => assert_eq!(p, "/data/models/ggml-tiny.bin"),
        other => panic!("unexpected: {:?}", other),
    }
    assert!(matches!(store.delete_model("tiny", false), FileAction::Keep));
    assert!(matches!(store.delete_model("tiny", false), FileAction::Keep));
}

#[test]
fn download_of_unknown_model_fails() {
    let store = DownloadService::with_directory("/data/models".to_string());
    match store.download_model("huge") {
        Err(AppError::ModelNotFound(id)) => assert_eq!(id, "huge"),
        other => panic!("unexpected: {:?}", other),
    }
}

#[test]
fn download_progress_and_commit() {
    let store = DownloadService::with_directory("/data/models".to_string());
    let mut s = store.download_model("tiny").unwrap();
    assert_eq!(s.url, "https://huggingface.co/ggerganov/whisper.cpp/resolve/main/ggml-tiny.bin");
    assert_eq!(s.total, 77_700_000);
    assert_eq!(s.temp_path, "/data/models/ggml-tiny.bin.tmp");
    s.on_response(Some(1_000));
    let p = s.on_chunk(250);
    assert_eq!((p.downloaded, p.total, p.percent), (250, 1_000, 25));
    assert_eq!(p.model_id, "tiny");
    let p = s.on_chunk(1_000);
    assert_eq!(p.percent, 125);
    match s.finish() {
        FileAction::Rename(from, to) => {
            assert_eq!(from, "/data/models/ggml-tiny.bin.tmp");
            assert_eq!(to, "/data/models/ggml-tiny.bin");
        }
        other => panic!("unexpected: {:?}", other),
    }
    assert_eq!(s.state, DownloadState::Finished);
}

#[test]
fn download_without_length_uses_catalog_size() {
    let store = DownloadService::with_directory("/m".to_string());
    let mut s = store.download_model("base").unwrap();
    s.on_response(None);
    assert_eq!(s.total, 148_000_000);
    let p = s.on_chunk(74_000_000);
    assert_eq!(p.percent, 50);
}

#[test]
fn failed_download_removes_only_the_partial_file() {
    let store = DownloadService::with_directory("/m".to_string());
    let mut s = store.download_model("small").unwrap();
    s.on_chunk(10);
    match s.fail() {
        FileAction::Remove(p) => assert_eq!(p, "/m/ggml-small.bin.tmp"),
        other => panic!("unexpected: {:?}", other),
    }
    assert_eq!(s.state, DownloadState::Failed);
}

#[test]
fn download_percent_edges() {
    assert_eq!(download_percent_of(0, 0), 100);
    assert_eq!(download_percent_of(3, 4), 75);
    assert_eq!(download_percent_of(u64::MAX, 1), u64::MAX);
}
