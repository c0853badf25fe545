//! Provider-neutral access to large language models.
//!
//! The crate holds what every model provider shares: messages and their turn
//! order, responses and when they count as empty, the prompt-guided tool protocol,
//! streaming types, and the declarations by which a provider says what it can do.
//! Contracts speak of text as sequences of characters and of messages by their
//! [`message::MessageView`].
//!
//! - [`message`]: messages, context-pruning markers and turn order.
//! - [`reasoning`]: cutting inline reasoning out of model output.
//! - [`response`]: responses, usage and history.
//! - [`tool`]: tools and the prompt-guided tool protocol.
//! - [`chat`]: what is dispatched for a request.
//! - [`provider`]: capabilities and declarations of a provider.
//! - [`stream`]: chunks, events, options and errors of streaming.
//! - [`thinking`], [`pricing`]: parameters of extended thinking, model catalogs.
//! - [`text`]: the text functions that the others use.
pub mod chat;
pub mod message;
pub mod pricing;
pub mod provider;
pub mod reasoning;
pub mod response;
pub mod stream;
pub mod text;
pub mod thinking;
pub mod tool;

pub use crate::chat::ChatRequest;
pub use crate::message::{
    ChatMessage, PRUNED_CONTEXT_SEPARATOR, PRUNED_TOOL_EXCHANGE_SUMMARY_PREFIX,
    PRUNED_TOOL_EXCHANGE_SUMMARY_SUFFIX,
};
pub use crate::pricing::{ModelInfo, ModelPricing};
pub use crate::provider::{
    ModelProvider, ProviderCapabilities, ProviderCapabilityError, BASELINE_MAX_TOKENS,
    BASELINE_TIMEOUT_SECS, BASELINE_WIRE_API,
};
pub use crate::reasoning::strip_think_tags;
pub use crate::response::{
    ChatResponse, ConversationMessage, SemanticEmptyTerminalCompletion, TokenUsage,
};
pub use crate::stream::{
    ModelRefusalError, StreamChunk, StreamError, StreamEvent, StreamOptions, StreamResult,
};
pub use crate::thinking::{
    NativeThinkingParams, ThinkingDisplay, MAX_BUDGET_TOKENS, MIN_BUDGET_TOKENS,
};
pub use crate::tool::{
    build_tool_instructions_text, ToolCall, ToolResultMessage, ToolSpec, ToolsPayload,
};
