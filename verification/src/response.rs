//! Model responses, token usage and conversation history.
use crate::message::ChatMessage;
use crate::reasoning::strip_think_tags;
use crate::tool::{ToolCall, ToolResultMessage};
use vstd::prelude::*;

verus! {

/// Token counts reported by a provider.
#[derive(Debug, Clone)]
pub struct TokenUsage {
    /// Total prompt size: uncached + cached input tokens (including the
    /// cache-write subset when the provider reports it separately).
    pub input_tokens: Option<u64>,
    /// Tokens of the response.
    pub output_tokens: Option<u64>,
    /// Subset of `input_tokens` that was served from the prompt cache.
    pub cached_input_tokens: Option<u64>,
    /// Subset of `input_tokens` that was written into the prompt cache on this
    /// request.
    pub cache_creation_input_tokens: Option<u64>,
}

impl Default for TokenUsage {
    /// Nothing is reported.
    fn default() -> (usage: Self)
        ensures
            usage == (TokenUsage {
                input_tokens: None,
                output_tokens: None,
                cached_input_tokens: None,
                cache_creation_input_tokens: None,
            }),
    {
        TokenUsage {
            input_tokens: None,
            output_tokens: None,
            cached_input_tokens: None,
            cache_creation_input_tokens: None,
        }
    }
}

/// An LLM response that may contain text, tool calls, or both.
#[derive(Debug, Clone)]
pub struct ChatResponse {
    /// Text content of the response (may be empty if only tool calls).
    pub text: Option<String>,
    /// Tool calls requested by the LLM.
    pub tool_calls: Vec<ToolCall>,
    /// Token usage reported by the provider, if available.
    pub usage: Option<TokenUsage>,
    /// Raw reasoning content of thinking models, kept as an opaque pass-through
    /// so that it can be sent back in later requests.
    pub reasoning_content: Option<String>,
}

/// A message in a multi-turn conversation, including tool interactions.
#[derive(Debug, Clone)]
pub enum ConversationMessage {
    /// Regular chat message (system, user, assistant).
    Chat(ChatMessage),
    /// Tool calls from the assistant (stored for history fidelity).
    AssistantToolCalls {
        /// Text beside the calls.
        text: Option<String>,
        /// The calls.
        tool_calls: Vec<ToolCall>,
        /// Raw reasoning content of thinking models, kept for round-trip fidelity.
        reasoning_content: Option<String>,
    },
    /// Results of tool executions, fed back to the LLM.
    ToolResults(Vec<ToolResultMessage>),
}

/// A transport-successful provider result that cannot complete a request.
///
/// The result has neither user-visible final text nor native tool calls.
/// Reasoning is not part of this contract because it is opaque provider
/// round-trip metadata rather than a final answer.
#[derive(Debug)]
pub struct SemanticEmptyTerminalCompletion;

impl SemanticEmptyTerminalCompletion {
    /// The error in words.
    pub fn describe(&self) -> (description: String)
        ensures
            description@ == "provider completed without final text or tool calls"@,
    {
        "provider completed without final text or tool calls".to_string()
    }
}

impl ChatResponse {
    /// The text of the response, empty where there is none.
    pub open spec fn answer(self) -> Seq<char> {
        match self.text {
            Some(text) => text@,
            None => Seq::empty(),
        }
    }

    /// The response neither shows text to the user nor calls a tool.
    pub open spec fn semantically_empty(self) -> bool {
        &&& crate::reasoning::stripped(self.answer()).len() == 0
        &&& self.tool_calls@.len() == 0
    }

    /// True when the LLM wants to invoke at least one tool.
    pub fn has_tool_calls(&self) -> (yes: bool)
        ensures
            yes == (self.tool_calls@.len() > 0),
    {
        !self.tool_calls.is_empty()
    }

    /// Convenience: return text content or empty string.
    pub fn text_or_empty(&self) -> (text: &str)
        ensures
            text@ == self.answer(),
            self.text matches Some(content) ==> text@ == content@,
            self.text is None ==> text@.len() == 0,
    {
        match &self.text {
            Some(text) => text.as_str(),
            None => {
                proof {
                    reveal_strlit("");
                    assert(""@ =~= Seq::<char>::empty());
                }
                ""
            },
        }
    }

    /// True when this response cannot make progress or complete a turn.
    ///
    /// Reasoning content is excluded: it may need to be round-tripped to a
    /// provider, but it is not a user-visible final answer. A response containing
    /// one or more tool calls remains valid even when its text is empty.
    pub fn is_semantically_empty_terminal(&self) -> (yes: bool)
        ensures
            yes == self.semantically_empty(),
            yes ==> self.tool_calls@.len() == 0,
            self.text is None && self.tool_calls@.len() == 0 ==> yes,
            self.text matches Some(content) ==> self.tool_calls@.len() == 0 ==> yes == (forall|i: int|
                0 <= i < crate::reasoning::visible(content@).len() ==> crate::text::white_space(
                    #[trigger] crate::reasoning::visible(content@)[i],
                )),
    {
        proof {
            crate::text::law_trimmed(crate::reasoning::visible(self.answer()));
            if self.text is None {
                lemma_nothing_is_visible_of_nothing();
            }
        }
        strip_think_tags(self.text_or_empty()).as_str().is_empty() && self.tool_calls.is_empty()
    }

    /// The response that consists of `text` alone, refused where it is
    /// semantically empty.
    pub fn from_final_text(text: String) -> (outcome: Result<Self, SemanticEmptyTerminalCompletion>)
        ensures
            outcome is Err <==> crate::reasoning::stripped(text@).len() == 0,
            outcome is Err <==> forall|i: int|
                0 <= i < crate::reasoning::visible(text@).len() ==> crate::text::white_space(
                    #[trigger] crate::reasoning::visible(text@)[i],
                ),
            outcome matches Ok(response) ==> {
                &&& response.text == Some(text)
                &&& response.tool_calls@.len() == 0
                &&& response.usage is None
                &&& response.reasoning_content is None
                &&& !response.semantically_empty()
            },
    {
        proof {
            crate::text::law_trimmed(crate::reasoning::visible(text@));
        }
        let response = ChatResponse {
            text: Some(text),
            tool_calls: Vec::new(),
            usage: None,
            reasoning_content: None,
        };
        if response.is_semantically_empty_terminal() {
            Err(SemanticEmptyTerminalCompletion)
        } else {
            Ok(response)
        }
    }
}

/// Empty text shows nothing.
proof fn lemma_nothing_is_visible_of_nothing()
    ensures
        crate::reasoning::visible(Seq::empty()).len() == 0,
{
    crate::reasoning::law_tags();
    crate::reasoning::law_text_without_reasoning_is_trimmed(Seq::empty());
}

/// A response that calls a tool is never semantically empty, whatever its text.
pub proof fn law_tool_calls_are_progress(response: ChatResponse)
    requires
        response.tool_calls@.len() > 0,
    ensures
        !response.semantically_empty(),
{
}

/// Reasoning content and usage do not decide whether a response is semantically
/// empty.
pub proof fn law_reasoning_content_is_ignored(
    response: ChatResponse,
    usage: Option<TokenUsage>,
    reasoning_content: Option<String>,
)
    ensures
        (ChatResponse { usage, reasoning_content, ..response }).semantically_empty()
            == response.semantically_empty(),
{
}

/// Without tool calls, a response whose text shows nothing but white space once
/// its inline reasoning is cut out is semantically empty, and no other is.
pub proof fn law_blank_visible_text_is_empty(response: ChatResponse)
    requires
        response.tool_calls@.len() == 0,
    ensures
        response.semantically_empty() <==> crate::text::blank(
            crate::reasoning::visible(response.answer()),
        ),
{
    crate::text::law_trimmed(crate::reasoning::visible(response.answer()));
}

} // verus!
