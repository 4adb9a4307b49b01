//! Plain data of the Anthropic messages API.
use vstd::prelude::*;

verus! {

#[derive(Debug, Clone)]
pub struct AnthropicMessage {
    pub role: String,
    pub content: String,
}

#[derive(Debug, Clone)]
pub struct ContentBlock {
    pub content_type: String,
    pub text: Option<String>,
}

#[derive(Debug, Clone, Copy)]
pub struct AnthropicUsage {
    pub input_tokens: u32,
    pub output_tokens: u32,
}

#[derive(Debug, Clone)]
pub struct AnthropicResponse {
    pub id: String,
    pub content: Vec<ContentBlock>,
    pub model: String,
    pub stop_reason: Option<String>,
    pub usage: AnthropicUsage,
}

#[derive(Debug, Clone)]
pub struct AnthropicError {
    pub error_type: String,
    pub message: String,
}

#[derive(Debug, Clone)]
pub struct AnthropicErrorResponse {
    pub error: AnthropicError,
}

/// An Anthropic model as offered to the user.
#[derive(Debug, Clone)]
pub struct AnthropicModel {
    pub id: String,
    pub name: String,
    pub description: String,
    pub created_at: String,
}

} // verus!
