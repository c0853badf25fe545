//! Streaming: chunks, events, options and errors.
use crate::response::TokenUsage;
use crate::tool::ToolCall;
use vstd::prelude::*;

verus! {

/// The error of `std::io`, carried through unread.
#[verifier::external_type_specification]
#[verifier::external_body]
pub struct ExIoError(std::io::Error);

// ---------------------------------------------------------------------------
// Chunks and events
// ---------------------------------------------------------------------------
/// A chunk of content from a streaming response.
#[derive(Debug, Clone)]
pub struct StreamChunk {
    /// Text delta for this chunk.
    pub delta: String,
    /// Reasoning/thinking delta (chain-of-thought from thinking models).
    pub reasoning: Option<String>,
    /// Whether this is the final chunk.
    pub is_final: bool,
    /// Approximate token count for this chunk (estimated).
    pub token_count: usize,
}

/// The estimated number of tokens of a text: one for every four bytes of its
/// UTF-8 encoding, the last group of bytes counted whole.
pub open spec fn token_estimate(text: Seq<char>) -> nat {
    ((vstd::utf8::encode_utf8(text).len() + 3) / 4) as nat
}

impl StreamChunk {
    /// Create a new non-final chunk.
    pub fn delta<S: Into<String>>(text: S) -> (chunk: Self)
        ensures
            call_ensures(S::into, (text,), chunk.delta),
            chunk.reasoning is None,
            !chunk.is_final,
            chunk.token_count == 0,
    {
        StreamChunk { delta: text.into(), reasoning: None, is_final: false, token_count: 0 }
    }

    /// Create a reasoning/thinking chunk.
    pub fn reasoning<S: Into<String>>(text: S) -> (chunk: Self)
        ensures
            chunk.delta@ == Seq::<char>::empty(),
            chunk.reasoning matches Some(reasoning) && call_ensures(S::into, (text,), reasoning),
            !chunk.is_final,
            chunk.token_count == 0,
    {
        StreamChunk {
            delta: String::new(),
            reasoning: Some(text.into()),
            is_final: false,
            token_count: 0,
        }
    }

    /// Create a final chunk.
    pub fn final_chunk() -> (chunk: Self)
        ensures
            chunk.delta@ == Seq::<char>::empty(),
            chunk.reasoning is None,
            chunk.is_final,
            chunk.token_count == 0,
    {
        StreamChunk { delta: String::new(), reasoning: None, is_final: true, token_count: 0 }
    }

    /// Create an error chunk.
    pub fn error<S: Into<String>>(message: S) -> (chunk: Self)
        ensures
            call_ensures(S::into, (message,), chunk.delta),
            chunk.reasoning is None,
            chunk.is_final,
            chunk.token_count == 0,
    {
        StreamChunk { delta: message.into(), reasoning: None, is_final: true, token_count: 0 }
    }

    /// Estimate tokens (rough approximation: ~4 chars per token).
    pub fn with_token_estimate(self) -> (chunk: Self)
        ensures
            chunk.token_count == token_estimate(self.delta@),
            4 * (chunk.token_count - 1) < vstd::utf8::encode_utf8(self.delta@).len() <= 4
                * chunk.token_count,
            chunk.delta == self.delta,
            chunk.reasoning == self.reasoning,
            chunk.is_final == self.is_final,
    {
        let bytes: usize = self.delta.as_str().as_bytes().len();
        let token_count: usize = if bytes % 4 == 0 {
            bytes / 4
        } else {
            bytes / 4 + 1
        };
        StreamChunk { token_count, ..self }
    }
}

/// The estimate is the least number of groups of four bytes that hold the text.
pub proof fn law_token_estimate(text: Seq<char>)
    ensures
        ({
            let bytes = vstd::utf8::encode_utf8(text).len();
            &&& bytes <= 4 * token_estimate(text)
            &&& 4 * token_estimate(text) < bytes + 4
        }),
{
}

/// Structured events emitted by provider streaming APIs.
///
/// This extends plain text chunk streaming with explicit tool-call signals so
/// agent loops can preserve native tool semantics without parsing payload text.
#[derive(Debug, Clone)]
pub enum StreamEvent {
    /// Text delta from the assistant.
    TextDelta(StreamChunk),
    /// Transient, human-readable thinking progress, never kept as reasoning
    /// content.
    ThinkingDelta(String),
    /// Durable, replay-only reasoning payload for the next provider request, never
    /// shown as progress.
    ReasoningFinalized(String),
    /// Structured tool call emitted during streaming.
    ToolCall(ToolCall),
    /// A tool call that was already executed by the provider. Emitted for
    /// observability only, not executed again.
    PreExecutedToolCall {
        /// Name of the tool.
        name: String,
        /// Arguments as JSON text.
        args: String,
    },
    /// The result of a pre-executed tool call.
    PreExecutedToolResult {
        /// Name of the tool.
        name: String,
        /// What the tool returned.
        output: String,
    },
    /// Token usage reported by the provider, typically just before
    /// [`StreamEvent::Final`].
    Usage(TokenUsage),
    /// Stream has completed.
    Final,
}

impl StreamEvent {
    /// The event that a chunk stands for.
    pub fn from_chunk(chunk: StreamChunk) -> (event: Self)
        ensures
            event == (if chunk.is_final {
                StreamEvent::Final
            } else {
                StreamEvent::TextDelta(chunk)
            }),
    {
        if chunk.is_final {
            Self::Final
        } else {
            Self::TextDelta(chunk)
        }
    }
}

/// The event that an item of a chunk stream stands for; an error stays as it is.
pub fn event_of(item: StreamResult<StreamChunk>) -> (event: StreamResult<StreamEvent>)
    ensures
        match (item, event) {
            (Ok(chunk), Ok(event)) => event == (if chunk.is_final {
                StreamEvent::Final
            } else {
                StreamEvent::TextDelta(chunk)
            }),
            (Err(before), Err(after)) => after == before,
            _ => false,
        },
{
    match item {
        Ok(chunk) => Ok(StreamEvent::from_chunk(chunk)),
        Err(error) => Err(error),
    }
}

// ---------------------------------------------------------------------------
// Options
// ---------------------------------------------------------------------------
/// Options for streaming chat requests.
#[derive(Debug, Clone, Copy)]
pub struct StreamOptions {
    /// Whether to enable streaming (default: true).
    pub enabled: bool,
    /// Whether to include token counts in chunks.
    pub count_tokens: bool,
}

impl Default for StreamOptions {
    /// Streaming is enabled, tokens are not counted.
    fn default() -> (options: Self)
        ensures
            options == (StreamOptions { enabled: true, count_tokens: false }),
    {
        StreamOptions { enabled: true, count_tokens: false }
    }
}

impl StreamOptions {
    /// Create new streaming options with enabled flag.
    pub fn new(enabled: bool) -> (options: Self)
        ensures
            options == (StreamOptions { enabled, count_tokens: false }),
    {
        StreamOptions { enabled, count_tokens: false }
    }

    /// Enable token counting.
    pub fn with_token_count(self) -> (options: Self)
        ensures
            options == (StreamOptions { enabled: self.enabled, count_tokens: true }),
    {
        StreamOptions { enabled: self.enabled, count_tokens: true }
    }
}

// ---------------------------------------------------------------------------
// Errors
// ---------------------------------------------------------------------------
/// Result type for streaming operations.
pub type StreamResult<T> = std::result::Result<T, StreamError>;

/// A provider safety refusal that completed at the transport layer but cannot
/// be accepted as an assistant response.
///
/// The optional usage belongs to the refusing attempt. `category` is diagnostic
/// metadata only and is not shown to users.
#[derive(Debug, Clone)]
pub struct ModelRefusalError {
    /// Model requested on the refusing attempt.
    pub requested_model: String,
    /// Refusal category token, when the provider supplied one.
    pub category: Option<String>,
    /// Normalized usage billed by the refusing attempt.
    pub usage: Option<Box<TokenUsage>>,
    /// Exact reliability candidate that emitted a streamed refusal.
    ///
    /// Leaf providers leave this unset. Composite providers fill it while
    /// forwarding a stream so a non-streaming recovery can skip exactly the
    /// already-billed candidate.
    pub attempted_candidate: Option<String>,
    /// Position of that candidate in the active reliability domain.
    pub attempted_candidate_index: Option<usize>,
}

impl ModelRefusalError {
    /// The error in words.
    pub fn describe(&self) -> (description: String)
        ensures
            description@
                == "anthropic refusal: model declined this request (safety classifiers)"@,
    {
        "anthropic refusal: model declined this request (safety classifiers)".to_string()
    }
}

/// Errors that can occur during streaming.
#[derive(Debug)]
pub enum StreamError {
    /// The HTTP exchange failed.
    Http(String),
    /// A payload is not valid JSON.
    Json(serde_json::Error),
    /// The event stream is malformed.
    InvalidSse(String),
    /// The provider reported an error.
    ModelProvider(String),
    /// The provider refused the request.
    ModelRefusal(Box<ModelRefusalError>),
    /// Reading or writing failed.
    Io(std::io::Error),
}

impl From<Box<ModelRefusalError>> for StreamError {
    fn from(refusal: Box<ModelRefusalError>) -> (error: Self) {
        StreamError::ModelRefusal(refusal)
    }
}

impl vstd::std_specs::convert::FromSpecImpl<Box<ModelRefusalError>> for StreamError {
    open spec fn obeys_from_spec() -> bool {
        true
    }

    open spec fn from_spec(refusal: Box<ModelRefusalError>) -> Self {
        StreamError::ModelRefusal(refusal)
    }
}

impl From<std::io::Error> for StreamError {
    fn from(failure: std::io::Error) -> (error: Self) {
        StreamError::Io(failure)
    }
}

impl vstd::std_specs::convert::FromSpecImpl<std::io::Error> for StreamError {
    open spec fn obeys_from_spec() -> bool {
        true
    }

    open spec fn from_spec(failure: std::io::Error) -> Self {
        StreamError::Io(failure)
    }
}

/// `detail` after the kind of error that it belongs to.
fn labelled(label: &str, detail: &str) -> (description: String)
    ensures
        description@ == label@ + detail@,
{
    label.to_string().concat(detail)
}

impl StreamError {
    /// `description` puts this error in words. The words of an error of
    /// `serde_json` or `std::io` are those that it displays.
    pub open spec fn described_by(self, description: Seq<char>) -> bool {
        match self {
            StreamError::Http(detail) => description == "HTTP error: "@ + detail@,
            StreamError::Json(error) => exists|detail: String|
                {
                    &&& #[trigger] vstd::string::to_string_from_display_ensures::<
                        serde_json::Error,
                    >(&error, detail)
                    &&& description == "JSON parse error: "@ + detail@
                },
            StreamError::InvalidSse(detail) => description == "Invalid SSE format: "@ + detail@,
            StreamError::ModelProvider(detail) => description == "ModelProvider error: "@ + detail@,
            StreamError::ModelRefusal(_) => description
                == "anthropic refusal: model declined this request (safety classifiers)"@,
            StreamError::Io(error) => exists|detail: String|
                {
                    &&& #[trigger] vstd::string::to_string_from_display_ensures::<
                        std::io::Error,
                    >(&error, detail)
                    &&& description == "IO error: "@ + detail@
                },
        }
    }

    /// The error in words.
    pub fn describe(&self) -> (description: String)
        ensures
            self.described_by(description@),
            match self {
                StreamError::Http(detail) => description@ == "HTTP error: "@ + detail@,
                StreamError::InvalidSse(detail) => description@ == "Invalid SSE format: "@
                    + detail@,
                StreamError::ModelProvider(detail) => description@ == "ModelProvider error: "@
                    + detail@,
                _ => true,
            },
    {
        match self {
            StreamError::Http(detail) => labelled("HTTP error: ", detail.as_str()),
            StreamError::Json(error) => {
                let detail = error.to_string();
                labelled("JSON parse error: ", detail.as_str())
            },
            StreamError::InvalidSse(detail) => labelled("Invalid SSE format: ", detail.as_str()),
            StreamError::ModelProvider(detail) => labelled(
                "ModelProvider error: ",
                detail.as_str(),
            ),
            StreamError::ModelRefusal(refusal) => refusal.describe(),
            StreamError::Io(error) => {
                let detail = error.to_string();
                labelled("IO error: ", detail.as_str())
            },
        }
    }
}

/// A refusal or a failure that becomes a streaming error is carried whole, and what
/// it was can be told from the error.
pub proof fn law_conversions_keep_the_cause(
    refusal: Box<ModelRefusalError>,
    failure: std::io::Error,
    refused: StreamError,
    failed: StreamError,
)
    requires
        call_ensures(<StreamError as From<Box<ModelRefusalError>>>::from, (refusal,), refused),
        call_ensures(<StreamError as From<std::io::Error>>::from, (failure,), failed),
    ensures
        refused matches StreamError::ModelRefusal(kept) && kept == refusal,
        failed matches StreamError::Io(kept) && kept == failure,
{
}

/// The words of an error are its label and then, whole, what it carries: the text of
/// an error that holds text, what it displays of one that holds an error.
pub proof fn law_stream_error_words(error: StreamError, description: Seq<char>)
    requires
        error.described_by(description),
    ensures
        match error {
            StreamError::Http(detail) => description.take(12) == "HTTP error: "@
                && description.skip(12) == detail@,
            StreamError::Json(cause) => description.take(18) == "JSON parse error: "@ && exists|
                detail: String,
            |
                {
                    &&& #[trigger] vstd::string::to_string_from_display_ensures::<
                        serde_json::Error,
                    >(&cause, detail)
                    &&& description.skip(18) == detail@
                },
            StreamError::InvalidSse(detail) => description.take(20) == "Invalid SSE format: "@
                && description.skip(20) == detail@,
            StreamError::ModelProvider(detail) => description.take(21) == "ModelProvider error: "@
                && description.skip(21) == detail@,
            StreamError::ModelRefusal(_) => description
                == "anthropic refusal: model declined this request (safety classifiers)"@,
            StreamError::Io(cause) => description.take(10) == "IO error: "@ && exists|
                detail: String,
            |
                {
                    &&& #[trigger] vstd::string::to_string_from_display_ensures::<
                        std::io::Error,
                    >(&cause, detail)
                    &&& description.skip(10) == detail@
                },
        },
{
    reveal_strlit("HTTP error: ");
    reveal_strlit("JSON parse error: ");
    reveal_strlit("Invalid SSE format: ");
    reveal_strlit("ModelProvider error: ");
    reveal_strlit("IO error: ");
    match error {
        StreamError::Http(detail) => {
            assert(description.take(12) =~= "HTTP error: "@);
            assert(description.skip(12) =~= detail@);
        },
        StreamError::Json(cause) => {
            let detail = choose|detail: String|
                {
                    &&& #[trigger] vstd::string::to_string_from_display_ensures::<
                        serde_json::Error,
                    >(&cause, detail)
                    &&& description == "JSON parse error: "@ + detail@
                };
            assert(description.take(18) =~= "JSON parse error: "@);
            assert(description.skip(18) =~= detail@);
        },
        StreamError::InvalidSse(detail) => {
            assert(description.take(20) =~= "Invalid SSE format: "@);
            assert(description.skip(20) =~= detail@);
        },
        StreamError::ModelProvider(detail) => {
            assert(description.take(21) =~= "ModelProvider error: "@);
            assert(description.skip(21) =~= detail@);
        },
        StreamError::ModelRefusal(_) => {},
        StreamError::Io(cause) => {
            let detail = choose|detail: String|
                {
                    &&& #[trigger] vstd::string::to_string_from_display_ensures::<
                        std::io::Error,
                    >(&cause, detail)
                    &&& description == "IO error: "@ + detail@
                };
            assert(description.take(10) =~= "IO error: "@);
            assert(description.skip(10) =~= detail@);
        },
    }
}

} // verus!
