//! Parameters of native extended thinking.
use vstd::prelude::*;

verus! {

/// Largest extended-thinking budget, in tokens.
pub const MAX_BUDGET_TOKENS: u32 = 128_000;

/// Anthropic's documented minimum for extended-thinking `budget_tokens`.
/// Requests below this are rejected by the provider.
pub const MIN_BUDGET_TOKENS: u32 = 1_024;

/// Parameters for native extended thinking support.
#[derive(Debug, Clone, Copy, PartialEq, Eq)]
pub struct NativeThinkingParams {
    /// Tokens that the model may spend on thinking.
    pub budget_tokens: u32,
    /// How thinking blocks come back. `None` leaves the field out of the request
    /// entirely.
    pub display: Option<ThinkingDisplay>,
}

/// Anthropic's `thinking.display` request field, controlling whether thinking
/// blocks come back omitted, as progress updates, or summarized.
#[derive(Debug, Clone, Copy, PartialEq, Eq, Structural)]
pub enum ThinkingDisplay {
    /// Thinking blocks are left out.
    Omitted,
    /// Thinking blocks come as progress updates.
    Updates,
    /// Thinking blocks come summarized.
    Summarized,
}

impl ThinkingDisplay {
    /// The value of the request field.
    pub open spec fn wire_value(self) -> Seq<char> {
        match self {
            ThinkingDisplay::Omitted => "omitted"@,
            ThinkingDisplay::Updates => "updates"@,
            ThinkingDisplay::Summarized => "summarized"@,
        }
    }

    /// The value of the request field.
    pub fn as_str(&self) -> (value: &'static str)
        ensures
            value@ == self.wire_value(),
            *self is Omitted ==> value@ == "omitted"@,
            *self is Updates ==> value@ == "updates"@,
            *self is Summarized ==> value@ == "summarized"@,
    {
        match self {
            Self::Omitted => "omitted",
            Self::Updates => "updates",
            Self::Summarized => "summarized",
        }
    }
}

/// Different choices have different values of the request field.
pub proof fn law_wire_values_differ(a: ThinkingDisplay, b: ThinkingDisplay)
    ensures
        a.wire_value() == b.wire_value() ==> a == b,
{
    reveal_strlit("omitted");
    reveal_strlit("updates");
    reveal_strlit("summarized");
    assert("omitted"@[0] == 'o');
    assert("updates"@[0] == 'u');
    assert("summarized"@[0] == 's');
}

} // verus!
