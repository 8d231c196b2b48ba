//! Model-specific chat-template formatters.
pub mod gemma4;
pub mod llama3;
pub mod mistral;
pub mod phi4;
pub mod qwen25;
