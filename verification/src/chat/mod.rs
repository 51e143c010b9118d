//! The text-generation service as the library sees it: what is asked of it,
//! what is counted, and how its answers are read.

pub mod ollama_chat;
pub mod usage;

pub use ollama_chat::{GenerateReply, OllamaChat, OllamaRequest};
pub use usage::UsageInfo;
