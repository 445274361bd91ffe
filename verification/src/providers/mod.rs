//! Model providers that speak the Responses wire format.
pub mod answer_laws;
pub mod effort;
pub mod event_laws;
pub mod http;
pub mod input;
pub mod openai_codex;
pub mod openai_responses;
pub mod request_laws;
pub mod response;
pub mod sse;
pub mod sse_laws;
pub mod thought_laws;

pub use effort::{OpenAIEffort, OpenAISummary};
pub use openai_codex::{CodexCredentials, OpenAICodex};
pub use openai_responses::OpenAIResponses;
