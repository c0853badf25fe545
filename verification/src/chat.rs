//! From a request to the messages that are dispatched, and from messages to the
//! prompts of a one-shot provider.
use crate::message;
use crate::message::ChatMessage;
use crate::provider::ModelProvider;
use crate::text;
use crate::thinking::NativeThinkingParams;
use crate::tool;
use crate::tool::{ToolSpec, ToolsPayload};
use vstd::prelude::*;

verus! {

/// Request payload for provider chat calls.
#[derive(Debug, Clone, Copy)]
pub struct ChatRequest<'a> {
    /// The conversation so far.
    pub messages: &'a [ChatMessage],
    /// The tools that the model may call.
    pub tools: Option<&'a [ToolSpec]>,
    /// Native extended thinking parameters.
    pub thinking: Option<NativeThinkingParams>,
}

// ---------------------------------------------------------------------------
// Prompts
// ---------------------------------------------------------------------------
/// The prompts of a one-shot chat call.
#[derive(Debug, Clone, Copy)]
pub struct Prompt<'a> {
    /// The system prompt, if there is one.
    pub system: Option<&'a str>,
    /// The message of the user.
    pub user: &'a str,
}

/// The content of the first system message.
pub open spec fn system_prompt(messages: Seq<message::MessageView>) -> Option<Seq<char>> {
    let n = message::first_with_role(messages, "system"@, 0);
    if n < messages.len() {
        Some(messages[n as int].content)
    } else {
        None
    }
}

/// The content of the last user message, empty where there is none.
pub open spec fn user_prompt(messages: Seq<message::MessageView>) -> Seq<char>
    decreases messages.len(),
{
    if messages.len() == 0 {
        Seq::empty()
    } else if messages.last().from_user() {
        messages.last().content
    } else {
        user_prompt(messages.drop_last())
    }
}

/// The first position of a system message, if there is one.
fn system_position(messages: &[ChatMessage]) -> (position: Option<usize>)
    ensures
        match position {
            Some(i) => i < messages@.len() && message::first_with_role(
                message::transcript(messages@),
                "system"@,
                0,
            ) == i,
            None => message::first_with_role(
                message::transcript(messages@),
                "system"@,
                0,
            ) == messages@.len(),
        },
{
    let ghost t = message::transcript(messages@);
    let mut i: usize = 0;
    while i < messages.len()
        invariant
            t == message::transcript(messages@),
            i <= messages@.len(),
            message::first_with_role(t, "system"@, 0) == message::first_with_role(
                t,
                "system"@,
                i as nat,
            ),
        decreases messages@.len() - i,
    {
        if messages[i].is_system() {
            return Some(i);
        }
        i = i + 1;
    }
    None
}

/// The prompts that stand for `messages` where only one system prompt and one
/// message can be sent: the first system message and the last user message.
pub fn select_prompt<'a>(messages: &'a [ChatMessage]) -> (prompt: Prompt<'a>)
    ensures
        match prompt.system {
            Some(system) => system_prompt(message::transcript(messages@)) == Some(system@),
            None => system_prompt(message::transcript(messages@)) is None,
        },
        prompt.user@ == user_prompt(message::transcript(messages@)),
        forall|i: int|
            0 <= i < messages@.len() && (#[trigger] messages@[i]).role@ == "user"@ && (forall|j: int|
                i < j < messages@.len() ==> (#[trigger] messages@[j]).role@ != "user"@)
                ==> prompt.user@ == messages@[i].content@,
        (forall|i: int| 0 <= i < messages@.len() ==> (#[trigger] messages@[i]).role@ != "user"@)
            ==> prompt.user@.len() == 0,
        forall|i: int|
            0 <= i < messages@.len() && (#[trigger] messages@[i]).role@ == "system"@ && (forall|
                j: int,
            |
                0 <= j < i ==> (#[trigger] messages@[j]).role@ != "system"@)
                ==> (prompt.system matches Some(system) && system@ == messages@[i].content@),
        (forall|i: int| 0 <= i < messages@.len() ==> (#[trigger] messages@[i]).role@ != "system"@)
            ==> prompt.system is None,
{
    let ghost t = message::transcript(messages@);
    proof {
        lemma_prompts_by_position(messages@);
    }
    let system: Option<&'a str> = match system_position(messages) {
        Some(i) => Some(messages[i].content.as_str()),
        None => None,
    };
    let mut end: usize = messages.len();
    assert(t.take(end as int) =~= t);
    while end > 0
        invariant
            t == message::transcript(messages@),
            end <= messages@.len(),
            user_prompt(t) == user_prompt(t.take(end as int)),
            match system {
                Some(prompt) => system_prompt(t) == Some(prompt@),
                None => system_prompt(t) is None,
            },
        decreases end,
    {
        proof {
            lemma_prompts_by_position(messages@);
        }
        if messages[end - 1].is_user() {
            return Prompt { system, user: messages[end - 1].content.as_str() };
        }
        assert(t.take(end as int).drop_last() =~= t.take(end - 1));
        end = end - 1;
    }
    proof {
        reveal_strlit("");
        assert(""@ =~= Seq::<char>::empty());
    }
    Prompt { system, user: "" }
}

// ---------------------------------------------------------------------------
// Prompt-guided tools
// ---------------------------------------------------------------------------
/// `instructions` after `content`, set off by an empty line where there is
/// content.
pub open spec fn with_block(content: Seq<char>, instructions: Seq<char>) -> Seq<char> {
    if content.len() == 0 {
        instructions
    } else {
        content + "\n\n"@ + instructions
    }
}

/// `messages` with `instructions` at the end of the first system message, or in a
/// system message of their own at the front where there is none.
pub open spec fn instructed(
    messages: Seq<message::MessageView>,
    instructions: Seq<char>,
) -> Seq<message::MessageView> {
    let n = message::first_with_role(messages, "system"@, 0) as int;
    if n < messages.len() {
        messages.update(
            n,
            message::MessageView {
                role: messages[n].role,
                content: with_block(messages[n].content, instructions),
            },
        )
    } else {
        seq![message::MessageView { role: "system"@, content: instructions }] + messages
    }
}

/// A provider without native tool calling presented its tools in a native format.
#[derive(Debug)]
pub struct UnexpectedToolsPayload {
    /// What the provider presented.
    pub payload: ToolsPayload,
}

impl UnexpectedToolsPayload {
    /// The error in words, given the payload in words.
    pub fn describe(payload: &str) -> (description: String)
        ensures
            description@ == "ModelProvider returned non-prompt-guided tools payload ("@ + payload@
                + ") while supports_native_tools() is false"@,
    {
        let mut description =
            "ModelProvider returned non-prompt-guided tools payload (".to_string();
        description.append(payload);
        description.append(") while supports_native_tools() is false");
        description
    }
}

/// Copies of `messages`, with `instructions` at the end of the first system
/// message, or in a system message of their own at the front where there is none.
pub fn with_tool_instructions(messages: &[ChatMessage], instructions: String) -> (guided: Vec<
    ChatMessage,
>)
    ensures
        message::transcript(guided@) == instructed(
            message::transcript(messages@),
            instructions@,
        ),
{
    let ghost t = message::transcript(messages@);
    let mut guided: Vec<ChatMessage> = Vec::new();
    let mut i: usize = 0;
    while i < messages.len()
        invariant
            i <= messages@.len(),
            guided@ == messages@.take(i as int),
        decreases messages@.len() - i,
    {
        guided.push(messages[i].clone());
        i = i + 1;
    }
    match system_position(messages) {
        Some(n) => {
            let mut system = messages[n].clone();
            if !system.content.as_str().is_empty() {
                system.content.append("\n\n");
            }
            system.content.append(instructions.as_str());
            proof {
                if t[n as int].content.len() == 0 {
                    assert(t[n as int].content + instructions@ =~= instructions@);
                }
            }
            guided.set(n, system);
        },
        None => {
            guided.insert(0, ChatMessage::system(instructions));
        },
    }
    assert(message::transcript(guided@) =~= instructed(t, instructions@));
    guided
}

/// The messages that carry the tools of `payload` in their text. Only a
/// prompt-guided payload can be carried so.
pub fn guided_messages(messages: &[ChatMessage], payload: ToolsPayload) -> (outcome: Result<
    Vec<ChatMessage>,
    UnexpectedToolsPayload,
>)
    ensures
        guided_outcome(messages@, payload, outcome),
        match outcome {
            Ok(guided) => payload matches ToolsPayload::PromptGuided { instructions }
                && message::transcript(guided@) == instructed(
                message::transcript(messages@),
                instructions@,
            ),
            Err(error) => !(payload is PromptGuided) && error.payload == payload,
        },
{
    match payload {
        ToolsPayload::PromptGuided { instructions } => Ok(
            with_tool_instructions(messages, instructions),
        ),
        payload => Err(UnexpectedToolsPayload { payload }),
    }
}

/// What [`guided_messages`] returns.
pub open spec fn guided_outcome(
    messages: Seq<ChatMessage>,
    payload: ToolsPayload,
    outcome: Result<Vec<ChatMessage>, UnexpectedToolsPayload>,
) -> bool {
    match (payload, outcome) {
        (ToolsPayload::PromptGuided { instructions }, Ok(guided)) => message::transcript(
            guided@,
        ) == instructed(message::transcript(messages), instructions@),
        (ToolsPayload::PromptGuided { .. }, Err(_)) => false,
        (_, Ok(_)) => false,
        (_, Err(error)) => error.payload == payload,
    }
}

/// The messages of a chat call that are dispatched to the provider.
#[derive(Debug)]
pub enum Dispatch<'a> {
    /// The messages of the request.
    AsGiven(&'a [ChatMessage]),
    /// The messages of the request with tool instructions in their text.
    Guided(Vec<ChatMessage>),
}

impl<'a> Dispatch<'a> {
    /// The messages that are dispatched.
    pub fn messages(&self) -> (messages: &[ChatMessage])
        ensures
            messages@ == (match self {
                Dispatch::AsGiven(given) => given@,
                Dispatch::Guided(guided) => guided@,
            }),
    {
        match self {
            Dispatch::AsGiven(given) => given,
            Dispatch::Guided(guided) => guided.as_slice(),
        }
    }
}

impl<'a> ChatRequest<'a> {
    /// The request offers at least one tool.
    pub open spec fn offers_tools(self) -> bool {
        self.tools matches Some(tools) && tools@.len() > 0
    }
}

/// Decide what is dispatched for `request`: its messages as they are, or, where it
/// offers tools that the provider cannot take natively, its messages with the
/// instructions to which the provider converts the tools.
pub fn prepare_chat<'a, P: ModelProvider + ?Sized>(
    provider: &P,
    request: ChatRequest<'a>,
) -> (outcome: Result<Dispatch<'a>, UnexpectedToolsPayload>)
    ensures
        !request.offers_tools() ==> outcome == Ok::<Dispatch<'a>, UnexpectedToolsPayload>(
            Dispatch::AsGiven(request.messages),
        ),
        request.offers_tools() ==> exists|native: bool|
            {
                &&& #[trigger] call_ensures(P::supports_native_tools, (provider,), native)
                &&& native ==> outcome == Ok::<Dispatch<'a>, UnexpectedToolsPayload>(
                    Dispatch::AsGiven(request.messages),
                )
                &&& !native ==> exists|payload: ToolsPayload|
                    {
                        &&& #[trigger] call_ensures(
                            P::convert_tools,
                            (provider, request.tools->0),
                            payload,
                        )
                        &&& match outcome {
                            Ok(Dispatch::Guided(guided)) => guided_outcome(
                                request.messages@,
                                payload,
                                Ok(guided),
                            ),
                            Ok(Dispatch::AsGiven(_)) => false,
                            Err(error) => guided_outcome(request.messages@, payload, Err(error)),
                        }
                    }
            },
        request.tools is None ==> outcome == Ok::<Dispatch<'a>, UnexpectedToolsPayload>(
            Dispatch::AsGiven(request.messages),
        ),
        request.tools matches Some(tools) ==> if tools@.len() == 0 {
            outcome == Ok::<Dispatch<'a>, UnexpectedToolsPayload>(
                Dispatch::AsGiven(request.messages),
            )
        } else {
            match outcome {
                Ok(Dispatch::AsGiven(given)) => given == request.messages && call_ensures(
                    P::supports_native_tools,
                    (provider,),
                    true,
                ),
                Ok(Dispatch::Guided(guided)) => call_ensures(
                    P::supports_native_tools,
                    (provider,),
                    false,
                ) && exists|instructions: String|
                    {
                        &&& #[trigger] call_ensures(
                            P::convert_tools,
                            (provider, tools),
                            ToolsPayload::PromptGuided { instructions },
                        )
                        &&& message::transcript(guided@) == instructed(
                            message::transcript(request.messages@),
                            instructions@,
                        )
                    },
                Err(error) => {
                    &&& call_ensures(P::supports_native_tools, (provider,), false)
                    &&& call_ensures(P::convert_tools, (provider, tools), error.payload)
                    &&& !(error.payload is PromptGuided)
                },
            }
        },
{
    if let Some(tools) = request.tools {
        if !tools.is_empty() && !provider.supports_native_tools() {
            let payload = provider.convert_tools(tools);
            return match guided_messages(request.messages, payload) {
                Ok(guided) => Ok(Dispatch::Guided(guided)),
                Err(error) => Err(error),
            };
        }
    }
    Ok(Dispatch::AsGiven(request.messages))
}

// ---------------------------------------------------------------------------
// Laws
// ---------------------------------------------------------------------------
/// The user prompt is the content of the last user message.
pub proof fn law_user_prompt_is_the_last_user_message(
    messages: Seq<message::MessageView>,
    i: int,
)
    requires
        0 <= i < messages.len(),
        messages[i].role == "user"@,
        forall|j: int| i < j < messages.len() ==> (#[trigger] messages[j]).role != "user"@,
    ensures
        user_prompt(messages) == messages[i].content,
    decreases messages.len(),
{
    if i < messages.len() - 1 {
        assert(messages[messages.len() - 1].role != "user"@);
        law_user_prompt_is_the_last_user_message(messages.drop_last(), i);
    }
}

/// Without a user message the user prompt is empty.
pub proof fn law_without_user_message_the_user_prompt_is_empty(
    messages: Seq<message::MessageView>,
)
    requires
        forall|i: int| 0 <= i < messages.len() ==> (#[trigger] messages[i]).role != "user"@,
    ensures
        user_prompt(messages).len() == 0,
    decreases messages.len(),
{
    if messages.len() > 0 {
        assert(messages[messages.len() - 1].role != "user"@);
        law_without_user_message_the_user_prompt_is_empty(messages.drop_last());
    }
}

/// The system prompt is the content of the first system message.
pub proof fn law_system_prompt_is_the_first_system_message(
    messages: Seq<message::MessageView>,
    i: int,
)
    requires
        0 <= i < messages.len(),
        messages[i].role == "system"@,
        forall|j: int| 0 <= j < i ==> (#[trigger] messages[j]).role != "system"@,
    ensures
        system_prompt(messages) == Some(messages[i].content),
{
    message::lemma_first_with_role(messages, "system"@, 0);
}

/// Without a system message there is no system prompt.
pub proof fn law_without_system_message_there_is_no_system_prompt(
    messages: Seq<message::MessageView>,
)
    requires
        forall|i: int| 0 <= i < messages.len() ==> (#[trigger] messages[i]).role != "system"@,
    ensures
        system_prompt(messages) is None,
{
    message::lemma_first_with_role(messages, "system"@, 0);
}

/// The prompts of a list of messages, by the positions of the messages that they
/// come from.
proof fn lemma_prompts_by_position(messages: Seq<ChatMessage>)
    ensures
        forall|i: int|
            0 <= i < messages.len() && (#[trigger] messages[i]).role@ == "user"@ && (forall|j: int|
                i < j < messages.len() ==> (#[trigger] messages[j]).role@ != "user"@)
                ==> user_prompt(message::transcript(messages)) == messages[i].content@,
        (forall|i: int| 0 <= i < messages.len() ==> (#[trigger] messages[i]).role@ != "user"@)
            ==> user_prompt(message::transcript(messages)).len() == 0,
        forall|i: int|
            0 <= i < messages.len() && (#[trigger] messages[i]).role@ == "system"@ && (forall|
                j: int,
            |
                0 <= j < i ==> (#[trigger] messages[j]).role@ != "system"@) ==> system_prompt(
                message::transcript(messages),
            ) == Some(messages[i].content@),
        (forall|i: int| 0 <= i < messages.len() ==> (#[trigger] messages[i]).role@ != "system"@)
            ==> system_prompt(message::transcript(messages)) is None,
{
    let t = message::transcript(messages);
    assert forall|i: int|
        0 <= i < messages.len() && (#[trigger] messages[i]).role@ == "user"@ && (forall|j: int|
            i < j < messages.len() ==> (#[trigger] messages[j]).role@
                != "user"@) implies user_prompt(t) == messages[i].content@ by {
        assert forall|j: int| i < j < t.len() implies (#[trigger] t[j]).role != "user"@ by {
            assert(messages[j].role@ != "user"@);
        }
        law_user_prompt_is_the_last_user_message(t, i);
    }
    if forall|i: int| 0 <= i < messages.len() ==> (#[trigger] messages[i]).role@ != "user"@ {
        assert forall|i: int| 0 <= i < t.len() implies (#[trigger] t[i]).role != "user"@ by {
            assert(messages[i].role@ != "user"@);
        }
        law_without_user_message_the_user_prompt_is_empty(t);
    }
    assert forall|i: int|
        0 <= i < messages.len() && (#[trigger] messages[i]).role@ == "system"@ && (forall|j: int|
            0 <= j < i ==> (#[trigger] messages[j]).role@ != "system"@) implies system_prompt(t)
        == Some(messages[i].content@) by {
        assert forall|j: int| 0 <= j < i implies (#[trigger] t[j]).role != "system"@ by {
            assert(messages[j].role@ != "system"@);
        }
        law_system_prompt_is_the_first_system_message(t, i);
    }
    if forall|i: int| 0 <= i < messages.len() ==> (#[trigger] messages[i]).role@ != "system"@ {
        assert forall|i: int| 0 <= i < t.len() implies (#[trigger] t[i]).role != "system"@ by {
            assert(messages[i].role@ != "system"@);
        }
        law_without_system_message_there_is_no_system_prompt(t);
    }
}

/// The last user message is read past messages that are not the user's.
proof fn lemma_user_prompt_behind(
    front: Seq<message::MessageView>,
    messages: Seq<message::MessageView>,
)
    requires
        forall|i: int| 0 <= i < front.len() ==> !front[i].from_user(),
    ensures
        user_prompt(front + messages) == user_prompt(messages),
    decreases front.len() + messages.len(),
{
    let whole = front + messages;
    if messages.len() > 0 {
        assert(whole.drop_last() =~= front + messages.drop_last());
        if !messages.last().from_user() {
            lemma_user_prompt_behind(front, messages.drop_last());
        }
    } else if front.len() > 0 {
        assert(whole.drop_last() =~= front.drop_last() + messages);
        lemma_user_prompt_behind(front.drop_last(), messages);
    }
}

/// Changing a message that is not the user's, whoever else speaks, leaves the last
/// user message as it is.
proof fn lemma_user_prompt_update(
    messages: Seq<message::MessageView>,
    n: int,
    message: message::MessageView,
)
    requires
        0 <= n < messages.len(),
        !messages[n].from_user(),
        !message.from_user(),
    ensures
        user_prompt(messages.update(n, message)) == user_prompt(messages),
    decreases messages.len(),
{
    let changed = messages.update(n, message);
    if n < messages.len() - 1 {
        assert(changed.drop_last() =~= messages.drop_last().update(n, message));
        if !messages.last().from_user() {
            lemma_user_prompt_update(messages.drop_last(), n, message);
        }
    } else {
        assert(changed.drop_last() =~= messages.drop_last());
    }
}

/// Tool instructions reach the model at the end of its system prompt, behind the
/// system prompt that the messages had, and the message of the user stays as it
/// is.
pub proof fn law_instructions_extend_the_system_prompt(
    messages: Seq<message::MessageView>,
    instructions: Seq<char>,
)
    ensures
        system_prompt(instructed(messages, instructions)) == Some(
            match system_prompt(messages) {
                Some(content) => with_block(content, instructions),
                None => instructions,
            },
        ),
        user_prompt(instructed(messages, instructions)) == user_prompt(messages),
{
    message::lemma_roles_differ();
    let n = message::first_with_role(messages, "system"@, 0);
    let guided = instructed(messages, instructions);
    let m = message::first_with_role(guided, "system"@, 0);
    message::lemma_first_with_role(messages, "system"@, 0);
    message::lemma_first_with_role(guided, "system"@, 0);
    if n < messages.len() {
        assert(guided[n as int].role == "system"@);
        assert(m == n) by {
            if m < n {
                assert(guided[m as int] == messages[m as int]);
            }
        }
        lemma_user_prompt_update(messages, n as int, guided[n as int]);
    } else {
        assert(guided[0].role == "system"@);
        assert(m == 0);
        lemma_user_prompt_behind(guided.take(1), messages);
        assert(guided =~= guided.take(1) + messages);
    }
}

/// Tool instructions change no message but the one that carries them, and no role.
pub proof fn law_instructions_change_one_message(
    messages: Seq<message::MessageView>,
    instructions: Seq<char>,
)
    ensures
        ({
            let n = message::first_with_role(messages, "system"@, 0) as int;
            let guided = instructed(messages, instructions);
            if n < messages.len() {
                &&& guided.len() == messages.len()
                &&& guided[n].role == messages[n].role
                &&& forall|i: int|
                    0 <= i < messages.len() && i != n ==> #[trigger] guided[i] == messages[i]
            } else {
                guided.skip(1) == messages
            }
        }),
{
    let n = message::first_with_role(messages, "system"@, 0) as int;
    let guided = instructed(messages, instructions);
    message::lemma_first_with_role(messages, "system"@, 0);
    if n >= messages.len() {
        assert(guided.skip(1) =~= messages);
    }
}

/// Instructions alone are the text where there was none. Otherwise the text is what
/// was there before, once, then two line breaks, then the instructions, and nothing
/// else.
pub proof fn law_block_keeps_content(content: Seq<char>, instructions: Seq<char>)
    ensures
        ({
            let whole = with_block(content, instructions);
            &&& text::begins_with(whole, content)
            &&& whole.skip(whole.len() - instructions.len()) == instructions
            &&& content.len() == 0 ==> whole == instructions
            &&& content.len() > 0 ==> {
                &&& whole.len() == content.len() + 2 + instructions.len()
                &&& whole.take(content.len() as int) == content
                &&& whole[content.len() as int] == '\n'
                &&& whole[content.len() as int + 1] == '\n'
            }
        }),
{
    reveal_strlit("\n\n");
    let whole = with_block(content, instructions);
    assert(whole.take(content.len() as int) =~= content);
    assert(whole.subrange(0, content.len() as int) =~= content);
    assert(whole.skip(whole.len() - instructions.len()) =~= instructions);
}

/// Where there is a system message, the first one carries the instructions behind
/// what it said, and every other message stays where and what it is.
pub proof fn law_first_system_message_carries_the_instructions(
    messages: Seq<message::MessageView>,
    instructions: Seq<char>,
    n: int,
)
    requires
        0 <= n < messages.len(),
        messages[n].role == "system"@,
        forall|j: int| 0 <= j < n ==> (#[trigger] messages[j]).role != "system"@,
    ensures
        ({
            let guided = instructed(messages, instructions);
            &&& guided.len() == messages.len()
            &&& guided[n].role == "system"@
            &&& messages[n].content.len() == 0 ==> guided[n].content == instructions
            &&& messages[n].content.len() > 0 ==> guided[n].content == messages[n].content + seq![
                '\n',
                '\n',
            ] + instructions
            &&& forall|i: int|
                0 <= i < messages.len() && i != n ==> #[trigger] guided[i] == messages[i]
        }),
{
    reveal_strlit("\n\n");
    message::lemma_first_with_role(messages, "system"@, 0);
    assert("\n\n"@ =~= seq!['\n', '\n']);
}

/// Where there is no system message, the instructions come first, in a system
/// message of their own, and every message follows unchanged.
pub proof fn law_instructions_come_first_without_system_message(
    messages: Seq<message::MessageView>,
    instructions: Seq<char>,
)
    requires
        forall|i: int| 0 <= i < messages.len() ==> (#[trigger] messages[i]).role != "system"@,
    ensures
        ({
            let guided = instructed(messages, instructions);
            &&& guided.len() == messages.len() + 1
            &&& guided[0].role == "system"@
            &&& guided[0].content == instructions
            &&& forall|i: int| 0 <= i < messages.len() ==> guided[i + 1] == #[trigger] messages[i]
        }),
{
    message::lemma_first_with_role(messages, "system"@, 0);
}

/// Where tools are presented as text, the system prompt that the model sees holds
/// the section of every tool.
pub proof fn law_guided_system_prompt_shows_every_tool(
    messages: Seq<message::MessageView>,
    tools: Seq<tool::ToolEntry>,
    i: int,
)
    requires
        0 <= i < tools.len(),
    ensures
        system_prompt(instructed(messages, tool::protocol(tools))) matches Some(prompt)
            && text::occurs_in(prompt, tool::tool_section(tools[i])),
{
    let protocol = tool::protocol(tools);
    let section = tool::tool_section(tools[i]);
    law_instructions_extend_the_system_prompt(messages, protocol);
    tool::law_protocol_shows_every_tool(tools, i);
    let at = choose|at: int| text::occurs_at(protocol, section, at);
    let prompt = system_prompt(instructed(messages, protocol))->0;
    let front = prompt.len() - protocol.len();
    if let Some(content) = system_prompt(messages) {
        law_block_keeps_content(content, protocol);
    }
    assert(prompt.skip(front) =~= protocol);
    assert(prompt.subrange(front + at, front + at + section.len()) =~= prompt.skip(front).subrange(
        at,
        at + section.len(),
    ));
    assert(text::occurs_at(prompt, section, front + at));
}

} // verus!
