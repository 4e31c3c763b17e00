//! LLM providers: the response model and the OpenAI-compatible provider's
//! request URL and response decoding. The HTTP exchange is left to the caller.

pub mod llm_provider;
pub mod openai_provider;

pub use llm_provider::{LLMResponse, ToolCallRequest};
pub use openai_provider::OpenAIProvider;
