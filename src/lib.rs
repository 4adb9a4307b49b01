//! Local transcription core: engine output parsing, progress accounting,
//! model catalog and store rules, and the transcription pipeline's decisions.
pub mod anthropic;
pub mod directory;
pub mod error;
pub mod json;
pub mod keychain;
pub mod locator;
pub mod media;
pub mod models;
pub mod ollama;
pub mod openai;
pub mod paths;
pub mod pipeline;
pub mod progress;
pub mod text;
pub mod transcript;
pub mod whisper;
