//! Plain data of the local LLM server's API.
use vstd::prelude::*;

verus! {

#[derive(Debug, Clone)]
pub struct OllamaModel {
    pub name: String,
    pub size: u64,
    pub modified_at: String,
}

#[derive(Debug, Clone)]
pub struct OllamaModelsResponse {
    pub models: Vec<OllamaModel>,
}

#[derive(Debug, Clone)]
pub struct ChatMessage {
    pub role: String,
    pub content: String,
}

/// One step of a suggested story order: a segment index and why it stands there.
#[derive(Debug, Clone)]
pub struct StorySegment {
    pub index: usize,
    pub reason: String,
}

} // verus!
