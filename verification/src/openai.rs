//! The wire records of the OpenAI-compatible surface.  Message content is
//! held as text; the proxy that relays requests lives outside this crate.

use vstd::prelude::*;

verus! {

#[derive(Debug, Clone)]
pub struct ChatMessage {
    pub role: String,
    pub content: String,
}

#[derive(Debug, Clone)]
pub struct AudioTranscriptionRequest {
    pub file: String,
    pub model: Option<String>,
    pub language: Option<String>,
}

#[derive(Debug, Clone)]
pub struct AudioTranscriptionResponse {
    pub text: String,
}

#[derive(Debug, Clone)]
pub struct AudioSpeechRequest {
    pub model: String,
    pub input: String,
    pub voice: String,
}

#[derive(Debug, Clone)]
pub struct ImageGenerationRequest {
    pub prompt: String,
    pub n: Option<i32>,
    pub size: Option<String>,
}

#[derive(Debug, Clone)]
pub struct ImageGenerationResponse {
    pub created: i64,
    pub data: Vec<ImageData>,
}

#[derive(Debug, Clone)]
pub struct ImageData {
    pub url: String,
}

#[derive(Debug, Clone, Copy, PartialEq, Eq, Structural)]
pub struct Usage {
    pub prompt_tokens: i32,
    pub completion_tokens: i32,
    pub total_tokens: i32,
}

#[derive(Debug, Clone)]
pub struct OpenAIError {
    pub message: String,
    pub error_type: String,
    pub code: Option<String>,
}

#[derive(Debug, Clone)]
pub struct OpenAIErrorResponse {
    pub error: OpenAIError,
}

#[derive(Debug, Clone)]
pub struct ChatCompletionStreamResponse {
    pub id: String,
    pub object: String,
    pub created: i64,
    pub model: String,
    pub choices: Vec<ChatCompletionStreamChoice>,
}

#[derive(Debug, Clone)]
pub struct ChatCompletionStreamChoice {
    pub index: i32,
    pub delta: ChatMessageDelta,
    pub finish_reason: Option<String>,
}

#[derive(Debug, Clone)]
pub struct ChatMessageDelta {
    pub role: Option<String>,
    pub content: Option<String>,
}

impl Default for ChatMessageDelta {
    fn default() -> (r: Self)
        ensures
            r.role is None,
            r.content is None,
    {
        ChatMessageDelta { role: None, content: None }
    }
}

} // verus!
