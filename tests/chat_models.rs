use clip_flow::openai::{is_chat_compatible_model, uses_max_completion_tokens};

#[test]
fn gpt_base_models() {
    // Integer versions
    assert!(is_chat_compatible_model("gpt-4"));
    assert!(is_chat_compatible_model("gpt-5"));
    assert!(is_chat_compatible_model("gpt-6"));
    assert!(is_chat_compatible_model("gpt-10"));

    // Decimal versions
    assert!(is_chat_compatible_model("gpt-3.5"));
    assert!(is_chat_compatible_model("gpt-4.1"));
    assert!(is_chat_compatible_model("gpt-5.2"));

    // With 'o' suffix
    assert!(is_chat_compatible_model("gpt-4o"));
    assert!(is_chat_compatible_model("gpt-5o"));
    assert!(is_chat_compatible_model("gpt-4.1o"));
}

#[test]
fn gpt_with_size_suffix() {
    // mini
    assert!(is_chat_compatible_model("gpt-4o-mini"));
    assert!(is_chat_compatible_model("gpt-5-mini"));
    assert!(is_chat_compatible_model("gpt-5o-mini"));
    assert!(is_chat_compatible_model("gpt-4.1-mini"));

    // nano
    assert!(is_chat_compatible_model("gpt-5-nano"));
    assert!(is_chat_compatible_model("gpt-4.1-nano"));

    // turbo
    assert!(is_chat_compatible_model("gpt-4-turbo"));
    assert!(is_chat_compatible_model("gpt-3.5-turbo"));
    assert!(is_chat_compatible_model("gpt-6-turbo"));

    // preview
    assert!(is_chat_compatible_model("gpt-5-preview"));

    // latest
    assert!(is_chat_compatible_model("gpt-5-latest"));
}

#[test]
fn o_series_base() {
    assert!(is_chat_compatible_model("o1"));
    assert!(is_chat_compatible_model("o3"));
    assert!(is_chat_compatible_model("o4"));
    assert!(is_chat_compatible_model("o10"));
    assert!(is_chat_compatible_model("o99"));
}

#[test]
fn o_series_with_suffix() {
    assert!(is_chat_compatible_model("o1-mini"));
    assert!(is_chat_compatible_model("o1-preview"));
    assert!(is_chat_compatible_model("o3-mini"));
    assert!(is_chat_compatible_model("o4-mini"));
    assert!(is_chat_compatible_model("o4-nano"));
}

#[test]
fn chatgpt_models() {
    assert!(is_chat_compatible_model("chatgpt-4o-latest"));
    assert!(is_chat_compatible_model("chatgpt-5-latest"));
    assert!(is_chat_compatible_model("chatgpt-anything"));
}

#[test]
fn date_versioned_models() {
    assert!(!is_chat_compatible_model("gpt-4o-2024-11-20"));
    assert!(!is_chat_compatible_model("gpt-4o-mini-2024-07-18"));
    assert!(!is_chat_compatible_model("gpt-4-0613"));
    assert!(!is_chat_compatible_model("gpt-3.5-turbo-0125"));
    assert!(!is_chat_compatible_model("o1-2024-12-17"));
    assert!(!is_chat_compatible_model("gpt-5-2025-08-07"));
}

#[test]
fn non_chat_variants() {
    // realtime
    assert!(!is_chat_compatible_model("gpt-4o-realtime"));
    assert!(!is_chat_compatible_model("gpt-4o-realtime-preview"));

    // audio
    assert!(!is_chat_compatible_model("gpt-4o-audio"));
    assert!(!is_chat_compatible_model("gpt-4o-audio-preview"));

    // tts / transcribe
    assert!(!is_chat_compatible_model("gpt-4o-mini-tts"));
    assert!(!is_chat_compatible_model("gpt-4o-mini-transcribe"));

    // image
    assert!(!is_chat_compatible_model("gpt-image-1"));

    // vision
    assert!(!is_chat_compatible_model("gpt-4-vision"));
}

#[test]
fn pro_suffix_excluded() {
    assert!(!is_chat_compatible_model("o1-pro"));
    assert!(!is_chat_compatible_model("o3-pro"));
    assert!(!is_chat_compatible_model("gpt-5-pro"));
}

#[test]
fn non_gpt_models() {
    assert!(!is_chat_compatible_model("dall-e-3"));
    assert!(!is_chat_compatible_model("whisper-1"));
    assert!(!is_chat_compatible_model("text-embedding-3-large"));
    assert!(!is_chat_compatible_model("davinci-002"));
    assert!(!is_chat_compatible_model("babbage-002"));
    assert!(!is_chat_compatible_model("ada-002"));
}

#[test]
fn invalid_formats() {
    assert!(!is_chat_compatible_model("gpt-"));
    assert!(!is_chat_compatible_model("gpt-abc"));
    assert!(!is_chat_compatible_model("o"));
    assert!(!is_chat_compatible_model("omni"));
    assert!(!is_chat_compatible_model(""));
}

#[test]
fn legacy_models_use_max_tokens() {
    assert!(!uses_max_completion_tokens("gpt-3.5"));
    assert!(!uses_max_completion_tokens("gpt-3.5-turbo"));
    assert!(!uses_max_completion_tokens("gpt-4"));
    assert!(!uses_max_completion_tokens("gpt-4-turbo"));
}

#[test]
fn newer_models_use_max_completion_tokens() {
    // gpt-4o series
    assert!(uses_max_completion_tokens("gpt-4o"));
    assert!(uses_max_completion_tokens("gpt-4o-mini"));

    // gpt-4.x series
    assert!(uses_max_completion_tokens("gpt-4.1"));
    assert!(uses_max_completion_tokens("gpt-4.1-mini"));

    // gpt-5+ series
    assert!(uses_max_completion_tokens("gpt-5"));
    assert!(uses_max_completion_tokens("gpt-5-mini"));
    assert!(uses_max_completion_tokens("gpt-5.2"));
    assert!(uses_max_completion_tokens("gpt-6"));
    assert!(uses_max_completion_tokens("gpt-10"));
}

#[test]
fn o_series_use_max_completion_tokens() {
    assert!(uses_max_completion_tokens("o1"));
    assert!(uses_max_completion_tokens("o1-mini"));
    assert!(uses_max_completion_tokens("o1-preview"));
    assert!(uses_max_completion_tokens("o3"));
    assert!(uses_max_completion_tokens("o3-mini"));
    assert!(uses_max_completion_tokens("o4"));
    assert!(uses_max_completion_tokens("o4-mini"));
}
