use clip_flow::error::AppError;
use clip_flow::openai::{format_model_name, has_date_suffix, language_code_to_name, language_name_for};

#[test]
fn model_display_names() {
    assert_eq!(format_model_name("gpt-4o-mini"), "GPT-4o Mini");
    assert_eq!(format_model_name("gpt-4-turbo-preview"), "GPT-4 Turbo Preview");
    assert_eq!(format_model_name("o1"), "o1");
}

#[test]
fn language_names() {
    assert_eq!(language_code_to_name("KO"), "Korean");
    assert_eq!(language_code_to_name("auto"), "the same language as the original transcription");
    assert_eq!(language_code_to_name("xx"), "xx");
    assert_eq!(language_code_to_name("Xy"), "Xy");
    assert_eq!(language_name_for("hi", "HI"), "Hindi");
    assert_eq!(language_name_for("zz", "ZZ"), "ZZ");
}

#[test]
fn date_suffixes() {
    assert!(has_date_suffix("gpt-4-0613"));
    assert!(!has_date_suffix("gpt-4o-2024-11-20"));
    assert!(has_date_suffix("o1-2024"));
    assert!(!has_date_suffix("gpt-4o-123"));
    assert!(!has_date_suffix("gpt4o"));
}

#[test]
fn error_messages() {
    assert_eq!(AppError::ModelNotFound("tiny".to_string()).message(), "Model not found: tiny");
    assert_eq!(AppError::FFmpeg("x".to_string()).message(), "FFmpeg error: x");
    assert!(!AppError::NoAudioStream.message().is_empty());
}
