use clip_flow::directory::is_supported_media;

#[test]
fn test_is_supported_media_video_files() {
    assert!(is_supported_media("video.mp4"));
    assert!(is_supported_media("video.mkv"));
    assert!(is_supported_media("video.avi"));
    assert!(is_supported_media("video.mov"));
    assert!(is_supported_media("video.webm"));
}

#[test]
fn test_is_supported_media_audio_files() {
    assert!(is_supported_media("audio.mp3"));
    assert!(is_supported_media("audio.wav"));
    assert!(is_supported_media("audio.m4a"));
    assert!(is_supported_media("audio.flac"));
    assert!(is_supported_media("audio.ogg"));
}

#[test]
fn test_is_supported_media_case_insensitive() {
    assert!(is_supported_media("video.MP4"));
    assert!(is_supported_media("audio.MP3"));
    assert!(is_supported_media("video.MKV"));
}

#[test]
fn test_is_supported_media_unsupported_files() {
    assert!(!is_supported_media("document.pdf"));
    assert!(!is_supported_media("image.jpg"));
    assert!(!is_supported_media("text.txt"));
    assert!(!is_supported_media("data.json"));
}

#[test]
fn test_is_supported_media_no_extension() {
    assert!(!is_supported_media("no_extension"));
    assert!(!is_supported_media("folder/"));
}

#[test]
fn hidden_file_without_extension_is_not_media() {
    assert!(!is_supported_media(".mp4"));
    assert!(is_supported_media("dir/.hidden.mp4"));
    assert!(is_supported_media("/a/b/clip.Flac"));
}

use clip_flow::directory::{keep_in_tree, sort_tree_children, text_le_exec, DirectoryNode};

fn node(name: &str, is_dir: bool) -> DirectoryNode {
    DirectoryNode {
        path: format!("/r/{}", name),
        name: name.to_string(),
        is_dir,
        size: 0,
        modified: None,
        extension: None,
        children: Vec::new(),
    }
}

#[test]
fn tree_keeps_visible_dirs_and_media_files() {
    assert!(keep_in_tree("sub", false, "/r/sub"));
    assert!(!keep_in_tree(".git", false, "/r/.git"));
    assert!(!keep_in_tree(".hidden.mp4", true, "/r/.hidden.mp4"));
    assert!(keep_in_tree("a.MP3", true, "/r/a.MP3"));
    assert!(!keep_in_tree("notes.txt", true, "/r/notes.txt"));
}

#[test]
fn tree_children_directories_first_then_by_name() {
    let sorted = sort_tree_children(vec![
        node("b.mp4", false),
        node("Zeta", true),
        node("A.mp3", false),
        node("alpha", true),
    ]);
    let names: Vec<&str> = sorted.iter().map(|n| n.name.as_str()).collect();
    assert_eq!(names, vec!["alpha", "Zeta", "A.mp3", "b.mp4"]);
    assert!(sort_tree_children(Vec::new()).is_empty());
}

#[test]
fn text_order() {
    assert!(text_le_exec("abc", "abd"));
    assert!(text_le_exec("ab", "abc"));
    assert!(!text_le_exec("b", "abc"));
    assert!(text_le_exec("", ""));
}
