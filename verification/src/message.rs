//! Conversation messages, context-pruning markers and turn order.
use crate::text;
use vstd::prelude::*;

verus! {

/// Start of the message that stands for a collapsed tool exchange.
pub const PRUNED_TOOL_EXCHANGE_SUMMARY_PREFIX: &'static str = "[Tool exchange:";

/// End of the message that stands for a collapsed tool exchange.
pub const PRUNED_TOOL_EXCHANGE_SUMMARY_SUFFIX: &'static str = "results collapsed]";

/// Content of the message that separates pruned context from what follows it.
pub const PRUNED_CONTEXT_SEPARATOR: &'static str = "[context continues]";

/// A single message in a conversation.
#[derive(Debug)]
pub struct ChatMessage {
    /// Who speaks: `system`, `user`, `assistant` or `tool`.
    pub role: String,
    /// What is said.
    pub content: String,
}

/// The model of a [`ChatMessage`].
#[verifier::ext_equal]
pub struct MessageView {
    /// Who speaks.
    pub role: Seq<char>,
    /// What is said.
    pub content: Seq<char>,
}

impl View for ChatMessage {
    type V = MessageView;

    open spec fn view(&self) -> MessageView {
        MessageView { role: self.role@, content: self.content@ }
    }
}

/// The models of a list of messages.
pub open spec fn transcript(messages: Seq<ChatMessage>) -> Seq<MessageView> {
    messages.map_values(|m: ChatMessage| m@)
}

impl MessageView {
    /// The message is spoken by the system.
    pub open spec fn from_system(self) -> bool {
        self.role == "system"@
    }

    /// The message is spoken by the user.
    pub open spec fn from_user(self) -> bool {
        self.role == "user"@
    }

    /// The message stands for a collapsed tool exchange.
    pub open spec fn summarizes_tool_exchange(self) -> bool {
        &&& self.role == "assistant"@
        &&& text::begins_with(self.content, PRUNED_TOOL_EXCHANGE_SUMMARY_PREFIX@)
        &&& text::occurs_in(self.content, PRUNED_TOOL_EXCHANGE_SUMMARY_SUFFIX@)
    }

    /// The message separates pruned context from what follows it.
    pub open spec fn separates_context(self) -> bool {
        &&& self.role == "user"@
        &&& text::trimmed(self.content) == PRUNED_CONTEXT_SEPARATOR@
    }
}

/// The text that stands for a collapsed exchange of `tool_count` tool calls.
pub open spec fn tool_exchange_summary(tool_count: nat) -> Seq<char> {
    PRUNED_TOOL_EXCHANGE_SUMMARY_PREFIX@ + " "@ + text::decimal(tool_count) + " tool call(s) — "@
        + PRUNED_TOOL_EXCHANGE_SUMMARY_SUFFIX@
}

/// The message at `index` is an internal pruning marker: the summary of a tool
/// exchange, or the separator right after one.
pub open spec fn is_pruning_marker(messages: Seq<MessageView>, index: int) -> bool {
    &&& 0 <= index < messages.len()
    &&& {
        ||| messages[index].summarizes_tool_exchange()
        ||| {
            &&& messages[index].separates_context()
            &&& index > 0
            &&& messages[index - 1].summarizes_tool_exchange()
        }
    }
}

/// The first position from `from` on that holds no system message, or the length.
pub open spec fn first_non_system(messages: Seq<MessageView>, from: nat) -> nat
    decreases messages.len() - from,
{
    if from < messages.len() && messages[from as int].from_system() {
        first_non_system(messages, from + 1)
    } else {
        from
    }
}

/// The first position from `from` on that holds a message with `role`, or the
/// length.
pub open spec fn first_with_role(messages: Seq<MessageView>, role: Seq<char>, from: nat) -> nat
    decreases messages.len() - from,
{
    if from < messages.len() && messages[from as int].role != role {
        first_with_role(messages, role, from + 1)
    } else {
        from
    }
}

/// The first position from `from` on that holds a user message, or the length.
pub open spec fn first_user(messages: Seq<MessageView>, from: nat) -> nat {
    first_with_role(messages, "user"@, from)
}

/// The system messages among `messages`, in order.
pub open spec fn system_messages(messages: Seq<MessageView>) -> Seq<MessageView>
    decreases messages.len(),
{
    if messages.len() == 0 {
        Seq::empty()
    } else if messages.last().from_system() {
        system_messages(messages.drop_last()).push(messages.last())
    } else {
        system_messages(messages.drop_last())
    }
}

/// `messages` where, between the leading system messages and the first user message
/// after them, only system messages are kept.
pub open spec fn in_turn_order(messages: Seq<MessageView>) -> Seq<MessageView> {
    let lead = first_non_system(messages, 0);
    let user = first_user(messages, lead);
    messages.take(lead as int) + system_messages(messages.subrange(lead as int, user as int))
        + messages.skip(user as int)
}

impl Clone for ChatMessage {
    fn clone(&self) -> (copy: Self)
        ensures
            copy == *self,
    {
        ChatMessage { role: self.role.clone(), content: self.content.clone() }
    }
}

impl ChatMessage {
    /// A message of the system.
    pub fn system<S: Into<String>>(content: S) -> (message: Self)
        ensures
            message.role@ == "system"@,
            call_ensures(S::into, (content,), message.content),
    {
        ChatMessage { role: "system".to_string(), content: content.into() }
    }

    /// A message of the user.
    pub fn user<S: Into<String>>(content: S) -> (message: Self)
        ensures
            message.role@ == "user"@,
            call_ensures(S::into, (content,), message.content),
    {
        ChatMessage { role: "user".to_string(), content: content.into() }
    }

    /// A message of the assistant.
    pub fn assistant<S: Into<String>>(content: S) -> (message: Self)
        ensures
            message.role@ == "assistant"@,
            call_ensures(S::into, (content,), message.content),
    {
        ChatMessage { role: "assistant".to_string(), content: content.into() }
    }

    /// A message that holds a tool result.
    pub fn tool<S: Into<String>>(content: S) -> (message: Self)
        ensures
            message.role@ == "tool"@,
            call_ensures(S::into, (content,), message.content),
    {
        ChatMessage { role: "tool".to_string(), content: content.into() }
    }

    /// The text that stands for a collapsed exchange of `tool_count` tool calls.
    pub fn pruned_tool_exchange_summary(tool_count: usize) -> (summary: String)
        ensures
            summary@ == tool_exchange_summary(tool_count as nat),
    {
        let mut summary = PRUNED_TOOL_EXCHANGE_SUMMARY_PREFIX.to_string();
        summary.append(" ");
        summary.append(text::decimal_text(tool_count).as_str());
        summary.append(" tool call(s) — ");
        summary.append(PRUNED_TOOL_EXCHANGE_SUMMARY_SUFFIX);
        summary
    }

    /// The message that separates pruned context from what follows it.
    pub fn pruned_context_separator() -> (message: Self)
        ensures
            message@ == (MessageView { role: "user"@, content: PRUNED_CONTEXT_SEPARATOR@ }),
    {
        Self::user(PRUNED_CONTEXT_SEPARATOR)
    }

    fn has_role(&self, role: &str) -> (yes: bool)
        ensures
            yes == (self.role@ == role@),
    {
        self.role == role.to_string()
    }

    /// Whether this message stands for a collapsed tool exchange.
    pub fn is_pruned_tool_exchange_summary(&self) -> (yes: bool)
        ensures
            yes == self@.summarizes_tool_exchange(),
            yes ==> self.role@ == "assistant"@,
    {
        self.has_role("assistant") && text::starts_with(
            self.content.as_str(),
            PRUNED_TOOL_EXCHANGE_SUMMARY_PREFIX,
        ) && text::contains(self.content.as_str(), PRUNED_TOOL_EXCHANGE_SUMMARY_SUFFIX)
    }

    /// Whether this message separates pruned context from what follows it.
    pub fn is_pruned_context_separator(&self) -> (yes: bool)
        ensures
            yes == self@.separates_context(),
            yes ==> self.role@ == "user"@,
    {
        self.has_role("user") && text::trim(self.content.as_str()).to_string()
            == PRUNED_CONTEXT_SEPARATOR.to_string()
    }

    /// Whether the message at `index` is an internal pruning marker, which is not
    /// to be shown. There is none where `index` is past the end.
    pub fn should_skip_internal_pruning_marker(messages: &[Self], index: usize) -> (skip: bool)
        ensures
            skip == is_pruning_marker(transcript(messages@), index as int),
    {
        if index >= messages.len() {
            return false;
        }
        if messages[index].is_pruned_tool_exchange_summary() {
            return true;
        }
        messages[index].is_pruned_context_separator() && index > 0 && messages[index
            - 1].is_pruned_tool_exchange_summary()
    }

    /// Whether the system speaks.
    pub fn is_system(&self) -> (yes: bool)
        ensures
            yes == self@.from_system(),
            yes == (self.role@ == "system"@),
    {
        self.has_role("system")
    }

    /// Whether the user speaks.
    pub fn is_user(&self) -> (yes: bool)
        ensures
            yes == self@.from_user(),
            yes == (self.role@ == "user"@),
    {
        self.has_role("user")
    }

    /// Drop the messages before the first user message that are not the system's, so
    /// that the conversation proper starts with a user turn.
    pub fn sanitize_leading_turn_order(messages: &mut Vec<Self>)
        ensures
            transcript(final(messages)@) == in_turn_order(transcript(old(messages)@)),
    {
        let ghost before = messages@;
        let ghost t = transcript(before);
        let mut lead: usize = 0;
        while lead < messages.len() && messages[lead].is_system()
            invariant
                messages@ == before,
                t == transcript(before),
                lead <= before.len(),
                first_non_system(t, 0) == first_non_system(t, lead as nat),
            decreases before.len() - lead,
        {
            lead = lead + 1;
        }
        let mut user: usize = lead;
        while user < messages.len() && !messages[user].is_user()
            invariant
                messages@ == before,
                t == transcript(before),
                lead <= user <= before.len(),
                first_user(t, lead as nat) == first_user(t, user as nat),
            decreases before.len() - user,
        {
            user = user + 1;
        }
        let mut tail = messages.split_off(user);
        let orphaned = messages.split_off(lead);
        let ghost middle = transcript(orphaned@);
        assert(middle =~= t.subrange(lead as int, user as int));
        assert(transcript(messages@) =~= t.take(lead as int) + system_messages(middle.take(0)));
        for message in it: orphaned.into_iter()
            invariant
                it.seq() == orphaned@,
                middle == transcript(orphaned@),
                transcript(messages@) == t.take(lead as int) + system_messages(
                    middle.take(it.index()),
                ),
        {
            let ghost kept = messages@;
            assert(middle.take(it.index() + 1).drop_last() =~= middle.take(it.index()));
            if message.is_system() {
                messages.push(message);
                assert(transcript(messages@) =~= transcript(kept).push(message@));
            }
        }
        assert(middle.take(middle.len() as int) =~= middle);
        let ghost front = messages@;
        messages.append(&mut tail);
        assert(transcript(messages@) =~= transcript(front) + t.skip(user as int));
    }
}

// ---------------------------------------------------------------------------
// Laws of the pruning markers
// ---------------------------------------------------------------------------
/// A message of the assistant with the text that
/// [`ChatMessage::pruned_tool_exchange_summary`] returns is recognised as the
/// summary of a tool exchange, whatever the number of calls.
pub proof fn law_summary_is_recognised(tool_count: nat)
    ensures
        (MessageView {
            role: "assistant"@,
            content: tool_exchange_summary(tool_count),
        }).summarizes_tool_exchange(),
{
    let prefix = PRUNED_TOOL_EXCHANGE_SUMMARY_PREFIX@;
    let suffix = PRUNED_TOOL_EXCHANGE_SUMMARY_SUFFIX@;
    let summary = tool_exchange_summary(tool_count);
    let n = (summary.len() - suffix.len()) as int;
    assert(summary.subrange(0, prefix.len() as int) =~= prefix);
    assert(summary.subrange(n, n + suffix.len()) =~= suffix);
    assert(text::occurs_at(summary, suffix, n));
}

/// A transcript holds the role and the content of each message, at its place.
pub proof fn law_transcript_is_faithful(messages: Seq<ChatMessage>, i: int)
    requires
        0 <= i < messages.len(),
    ensures
        transcript(messages).len() == messages.len(),
        transcript(messages)[i].role == messages[i].role@,
        transcript(messages)[i].content == messages[i].content@,
{
}

/// A message summarizes a tool exchange if and only if it is the assistant's, begins
/// with the opening of a summary, and holds the closing of one.
pub proof fn law_summaries_are_marked(message: MessageView)
    ensures
        message.summarizes_tool_exchange() <==> {
            &&& message.role == "assistant"@
            &&& exists|rest: Seq<char>| message.content == #[trigger] ("[Tool exchange:"@ + rest)
            &&& exists|before: Seq<char>, after: Seq<char>|
                message.content == #[trigger] (before + "results collapsed]"@ + after)
        },
{
    text::law_begins_with(message.content, "[Tool exchange:"@);
    text::law_occurs_in(message.content, "results collapsed]"@);
}

/// A message separates context if and only if it is the user's and holds the
/// separator with nothing but white space around it.
pub proof fn law_separators_are_marked(message: MessageView)
    ensures
        message.separates_context() <==> {
            &&& message.role == "user"@
            &&& exists|before: Seq<char>, after: Seq<char>|
                {
                    &&& message.content == #[trigger] (before + "[context continues]"@ + after)
                    &&& forall|i: int| 0 <= i < before.len() ==> text::white_space(before[i])
                    &&& forall|i: int| 0 <= i < after.len() ==> text::white_space(after[i])
                }
        },
{
    reveal_strlit("[context continues]");
    let separator = "[context continues]"@;
    assert(separator.first() == '[');
    assert(separator.last() == ']');
    text::law_trimmed_is_what_white_space_surrounds(message.content, separator);
}

/// The words of a summary are fixed but for the number, which stands in them once,
/// in decimal notation.
pub proof fn law_summary_words(tool_count: nat)
    ensures
        tool_exchange_summary(tool_count) == "[Tool exchange: "@ + text::decimal(tool_count)
            + " tool call(s) — results collapsed]"@,
{
    reveal_strlit("[Tool exchange: ");
    reveal_strlit("[Tool exchange:");
    reveal_strlit(" ");
    reveal_strlit(" tool call(s) — results collapsed]");
    reveal_strlit(" tool call(s) — ");
    reveal_strlit("results collapsed]");
    assert("[Tool exchange: "@ =~= "[Tool exchange:"@ + " "@);
    assert(" tool call(s) — results collapsed]"@ =~= " tool call(s) — "@ + "results collapsed]"@);
    assert(tool_exchange_summary(tool_count) =~= "[Tool exchange: "@ + text::decimal(tool_count)
        + " tool call(s) — results collapsed]"@);
}

/// Summaries of different numbers of tool calls are different.
pub proof fn law_summary_tells_the_count(m: nat, n: nat)
    requires
        tool_exchange_summary(m) == tool_exchange_summary(n),
    ensures
        m == n,
{
    let head = PRUNED_TOOL_EXCHANGE_SUMMARY_PREFIX@ + " "@;
    let tail = " tool call(s) — "@ + PRUNED_TOOL_EXCHANGE_SUMMARY_SUFFIX@;
    let a = text::decimal(m);
    let b = text::decimal(n);
    assert(tool_exchange_summary(m) =~= head + a + tail);
    assert(tool_exchange_summary(n) =~= head + b + tail);
    assert(a =~= tool_exchange_summary(m).subrange(head.len() as int, (head.len() + a.len()) as int));
    assert(b =~= tool_exchange_summary(n).subrange(head.len() as int, (head.len() + b.len()) as int));
    text::law_decimal_is_exact(m);
    text::law_decimal_is_exact(n);
}

/// The message that [`ChatMessage::pruned_context_separator`] returns is
/// recognised as a separator.
pub proof fn law_separator_is_recognised()
    ensures
        (MessageView {
            role: "user"@,
            content: PRUNED_CONTEXT_SEPARATOR@,
        }).separates_context(),
{
    reveal_strlit("[context continues]");
}

/// The four roles are different.
pub proof fn lemma_roles_differ()
    ensures
        "system"@ != "user"@,
        "system"@ != "assistant"@,
        "system"@ != "tool"@,
        "user"@ != "assistant"@,
        "user"@ != "tool"@,
        "assistant"@ != "tool"@,
{
    reveal_strlit("system");
    reveal_strlit("user");
    reveal_strlit("assistant");
    reveal_strlit("tool");
    assert("system"@[0] == 's');
    assert("user"@[0] == 'u');
    assert("assistant"@[0] == 'a');
    assert("tool"@[0] == 't');
}

/// A separator is skipped if and only if the message right before it is the
/// summary of a tool exchange.
pub proof fn law_separator_is_skipped_only_after_summary(messages: Seq<MessageView>, index: int)
    requires
        0 <= index < messages.len(),
        messages[index].separates_context(),
    ensures
        is_pruning_marker(messages, index) <==> index > 0 && messages[index
            - 1].summarizes_tool_exchange(),
{
    lemma_roles_differ();
}

/// What is skipped is itself a marker: the summary of a tool exchange, or a separator
/// right after one. Every summary is skipped, and so is every separator right after
/// one.
pub proof fn law_only_and_all_markers_are_skipped(messages: Seq<MessageView>, index: int)
    ensures
        is_pruning_marker(messages, index) ==> {
            &&& 0 <= index < messages.len()
            &&& messages[index].summarizes_tool_exchange() || {
                &&& messages[index].separates_context()
                &&& index > 0
                &&& messages[index - 1].summarizes_tool_exchange()
            }
        },
        0 <= index < messages.len() && messages[index].summarizes_tool_exchange()
            ==> is_pruning_marker(messages, index),
        0 < index < messages.len() && messages[index].separates_context() && messages[index
            - 1].summarizes_tool_exchange() ==> is_pruning_marker(messages, index),
{
}

/// A user message that says anything but the separator is never skipped, whatever
/// stands before it.
pub proof fn law_user_turns_are_never_skipped(messages: Seq<MessageView>, index: int)
    requires
        0 <= index < messages.len(),
        messages[index].role == "user"@,
        text::trimmed(messages[index].content) != "[context continues]"@,
    ensures
        !is_pruning_marker(messages, index),
{
    lemma_roles_differ();
}

/// Only messages of the assistant and of the user are ever skipped.
pub proof fn law_system_and_tool_messages_are_never_skipped(
    messages: Seq<MessageView>,
    index: int,
)
    requires
        is_pruning_marker(messages, index),
    ensures
        messages[index].role == "assistant"@ || messages[index].role == "user"@,
        messages[index].role != "system"@,
        messages[index].role != "tool"@,
{
    lemma_roles_differ();
}

// ---------------------------------------------------------------------------
// Laws of the turn order
// ---------------------------------------------------------------------------
/// What [`first_with_role`] finds.
pub proof fn lemma_first_with_role(messages: Seq<MessageView>, role: Seq<char>, from: nat)
    requires
        from <= messages.len(),
    ensures
        ({
            let n = first_with_role(messages, role, from);
            &&& from <= n <= messages.len()
            &&& forall|i: int| from <= i < n ==> (#[trigger] messages[i]).role != role
            &&& n < messages.len() ==> messages[n as int].role == role
        }),
    decreases messages.len() - from,
{
    if from < messages.len() {
        lemma_first_with_role(messages, role, from + 1);
    }
}

/// What [`first_non_system`] and [`first_user`] find.
proof fn lemma_first_positions(messages: Seq<MessageView>, from: nat)
    requires
        from <= messages.len(),
    ensures
        from <= first_non_system(messages, from) <= messages.len(),
        forall|i: int| from <= i < first_non_system(messages, from) ==> messages[i].from_system(),
        first_non_system(messages, from) < messages.len() ==> !messages[first_non_system(
            messages,
            from,
        ) as int].from_system(),
        from <= first_user(messages, from) <= messages.len(),
        forall|i: int| from <= i < first_user(messages, from) ==> !messages[i].from_user(),
        first_user(messages, from) < messages.len() ==> messages[first_user(
            messages,
            from,
        ) as int].from_user(),
    decreases messages.len() - from,
{
    lemma_first_with_role(messages, "user"@, from);
    if from < messages.len() {
        lemma_first_positions(messages, from + 1);
    }
}

/// The leading system messages end where the first other message stands.
proof fn lemma_first_non_system_at(messages: Seq<MessageView>, from: nat, n: nat)
    requires
        from <= n <= messages.len(),
        forall|i: int| from <= i < n ==> messages[i].from_system(),
        n < messages.len() ==> !messages[n as int].from_system(),
    ensures
        first_non_system(messages, from) == n,
    decreases n - from,
{
    if from < n {
        lemma_first_non_system_at(messages, from + 1, n);
    }
}

/// The system messages of two lists, one after the other, are those of the first
/// followed by those of the second.
proof fn lemma_system_messages_add(first: Seq<MessageView>, second: Seq<MessageView>)
    ensures
        system_messages(first + second) == system_messages(first) + system_messages(second),
    decreases second.len(),
{
    if second.len() == 0 {
        assert(first + second =~= first);
        assert(system_messages(first) + system_messages(second) =~= system_messages(first));
    } else {
        lemma_system_messages_add(first, second.drop_last());
        assert((first + second).drop_last() =~= first + second.drop_last());
        assert(system_messages(first + second) =~= system_messages(first) + system_messages(
            second,
        ));
    }
}

/// The system messages are spoken by the system, and are no more than there are
/// messages.
proof fn lemma_system_messages(messages: Seq<MessageView>)
    ensures
        system_messages(messages).len() <= messages.len(),
        forall|i: int|
            0 <= i < system_messages(messages).len() ==> (#[trigger] system_messages(
                messages,
            )[i]).from_system(),
    decreases messages.len(),
{
    if messages.len() > 0 {
        lemma_system_messages(messages.drop_last());
    }
}

/// Where all messages are the system's, all are system messages.
proof fn lemma_all_system_messages(messages: Seq<MessageView>)
    requires
        forall|i: int| 0 <= i < messages.len() ==> messages[i].from_system(),
    ensures
        system_messages(messages) == messages,
    decreases messages.len(),
{
    if messages.len() > 0 {
        lemma_all_system_messages(messages.drop_last());
        assert(messages.drop_last().push(messages.last()) =~= messages);
    }
}

/// System messages followed by messages that start with the user's are told apart at
/// the first message that is not the system's.
proof fn lemma_system_then_user(front: Seq<MessageView>, back: Seq<MessageView>)
    requires
        forall|i: int| 0 <= i < front.len() ==> front[i].from_system(),
        back.len() > 0 ==> back[0].from_user(),
    ensures
        first_non_system(front + back, 0) == front.len(),
        (front + back).take(front.len() as int) == front,
        (front + back).skip(front.len() as int) == back,
{
    lemma_roles_differ();
    let whole = front + back;
    assert(whole.take(front.len() as int) =~= front);
    assert(whole.skip(front.len() as int) =~= back);
    lemma_first_non_system_at(whole, 0, front.len());
}

/// After sanitizing, the messages start with the leading system messages that they
/// had and the system messages that were kept behind them, and the first message
/// after those, if there is one, is a user message.
pub proof fn law_turn_order_starts_with_user(messages: Seq<MessageView>)
    ensures
        ({
            let lead = first_non_system(messages, 0);
            let user = first_user(messages, lead);
            let kept = system_messages(messages.subrange(lead as int, user as int));
            let result = in_turn_order(messages);
            let start = first_non_system(result, 0);
            &&& start == lead + kept.len()
            &&& result.take(start as int) == messages.take(lead as int) + kept
            &&& result.skip(start as int) == messages.skip(user as int)
            &&& result.len() == lead + kept.len() + (messages.len() - user)
            &&& start < result.len() ==> result[start as int].from_user()
        }),
{
    let lead = first_non_system(messages, 0);
    let user = first_user(messages, lead);
    lemma_first_positions(messages, 0);
    lemma_first_positions(messages, lead);
    let middle = messages.subrange(lead as int, user as int);
    let kept = system_messages(middle);
    lemma_system_messages(middle);
    let front = messages.take(lead as int) + kept;
    let back = messages.skip(user as int);
    assert forall|i: int| 0 <= i < front.len() implies front[i].from_system() by {
        if i >= lead {
            assert(front[i] == kept[i - lead]);
        }
    }
    lemma_system_then_user(front, back);
}

/// The system messages are the messages whose role is `system`.
pub proof fn law_system_messages_are_those_of_the_system(messages: Seq<MessageView>)
    ensures
        system_messages(messages) == messages.filter(|m: MessageView| m.role == "system"@),
    decreases messages.len(),
{
    reveal(Seq::filter);
    if messages.len() > 0 {
        law_system_messages_are_those_of_the_system(messages.drop_last());
    } else {
        assert(system_messages(messages) =~= messages);
    }
}

/// Where the first `lead` messages are all the system's, the next one is not, and the
/// first user message from there on is at `user`: sanitizing keeps the first `lead`
/// messages, of those before `user` the system's, and from `user` on everything, in
/// order, each once.
pub proof fn law_turn_order_by_position(messages: Seq<MessageView>, lead: int, user: int)
    requires
        0 <= lead <= user <= messages.len(),
        forall|i: int| 0 <= i < lead ==> (#[trigger] messages[i]).role == "system"@,
        lead < messages.len() ==> messages[lead].role != "system"@,
        forall|i: int| lead <= i < user ==> (#[trigger] messages[i]).role != "user"@,
        user < messages.len() ==> messages[user].role == "user"@,
    ensures
        in_turn_order(messages) == messages.take(lead) + messages.subrange(lead, user).filter(
            |m: MessageView| m.role == "system"@,
        ) + messages.skip(user),
{
    lemma_first_non_system_at(messages, 0, lead as nat);
    lemma_first_with_role(messages, "user"@, lead as nat);
    law_system_messages_are_those_of_the_system(messages.subrange(lead, user));
}

/// Sanitizing only removes, and only messages that are neither the system's nor the
/// user's: of the system's and the user's messages the same are left, in the same
/// order.
pub proof fn law_turn_order_drops_neither_system_nor_user(messages: Seq<MessageView>)
    ensures
        in_turn_order(messages).len() <= messages.len(),
        in_turn_order(messages).filter(
            |m: MessageView| m.role == "system"@ || m.role == "user"@,
        ) == messages.filter(|m: MessageView| m.role == "system"@ || m.role == "user"@),
{
    let spoken = |m: MessageView| m.role == "system"@ || m.role == "user"@;
    let system = |m: MessageView| m.role == "system"@;
    let lead = first_non_system(messages, 0);
    let user = first_user(messages, lead);
    lemma_first_positions(messages, 0);
    lemma_first_positions(messages, lead);
    let front = messages.take(lead as int);
    let middle = messages.subrange(lead as int, user as int);
    let tail = messages.skip(user as int);
    let kept = system_messages(middle);
    lemma_system_messages(middle);
    law_system_messages_are_those_of_the_system(middle);
    lemma_filter_agrees(middle, spoken, system);
    lemma_filter_agrees(kept, spoken, system);
    lemma_all_system_messages(kept);
    law_system_messages_are_those_of_the_system(kept);
    assert(messages =~= front + middle + tail);
    Seq::filter_distributes_over_add(front + middle, tail, spoken);
    Seq::filter_distributes_over_add(front, middle, spoken);
    Seq::filter_distributes_over_add(front + kept, tail, spoken);
    Seq::filter_distributes_over_add(front, kept, spoken);
}

/// Two tests that agree on every message pick the same messages.
proof fn lemma_filter_agrees(
    messages: Seq<MessageView>,
    p: spec_fn(MessageView) -> bool,
    q: spec_fn(MessageView) -> bool,
)
    requires
        forall|i: int| 0 <= i < messages.len() ==> p(#[trigger] messages[i]) == q(messages[i]),
    ensures
        messages.filter(p) == messages.filter(q),
    decreases messages.len(),
{
    reveal(Seq::filter);
    if messages.len() > 0 {
        let last = messages[messages.len() - 1];
        assert(p(last) == q(last));
        lemma_filter_agrees(messages.drop_last(), p, q);
    }
}

/// A history whose first message after the leading system messages is a user
/// message, or that has none, is left as it is.
pub proof fn law_valid_turn_order_is_kept(messages: Seq<MessageView>)
    requires
        ({
            let lead = first_non_system(messages, 0);
            lead < messages.len() ==> messages[lead as int].from_user()
        }),
    ensures
        in_turn_order(messages) == messages,
{
    lemma_first_positions(messages, 0);
    assert(in_turn_order(messages) =~= messages);
}

/// Sanitizing twice is sanitizing once.
pub proof fn law_turn_order_is_idempotent(messages: Seq<MessageView>)
    ensures
        in_turn_order(in_turn_order(messages)) == in_turn_order(messages),
{
    law_turn_order_starts_with_user(messages);
    law_valid_turn_order_is_kept(in_turn_order(messages));
}

/// Without a user message, exactly the system messages remain.
pub proof fn law_without_user_only_system_messages_remain(messages: Seq<MessageView>)
    requires
        forall|i: int| 0 <= i < messages.len() ==> !messages[i].from_user(),
    ensures
        in_turn_order(messages) == system_messages(messages),
{
    let lead = first_non_system(messages, 0);
    let user = first_user(messages, lead);
    lemma_first_positions(messages, 0);
    lemma_first_positions(messages, lead);
    let front = messages.take(lead as int);
    let middle = messages.subrange(lead as int, user as int);
    assert(messages =~= front + middle);
    lemma_all_system_messages(front);
    lemma_system_messages_add(front, middle);
    assert(in_turn_order(messages) =~= front + system_messages(middle));
}

/// Every system message is kept, in order.
pub proof fn law_turn_order_keeps_system_messages(messages: Seq<MessageView>)
    ensures
        system_messages(in_turn_order(messages)) == system_messages(messages),
{
    let lead = first_non_system(messages, 0);
    let user = first_user(messages, lead);
    lemma_first_positions(messages, 0);
    lemma_first_positions(messages, lead);
    let front = messages.take(lead as int);
    let middle = messages.subrange(lead as int, user as int);
    let tail = messages.skip(user as int);
    lemma_system_messages(middle);
    lemma_all_system_messages(system_messages(middle));
    assert(messages =~= front + middle + tail);
    lemma_system_messages_add(front + middle, tail);
    lemma_system_messages_add(front, middle);
    lemma_system_messages_add(front + system_messages(middle), tail);
    lemma_system_messages_add(front, system_messages(middle));
}

/// No user message is dropped, nor anything that comes after one.
pub proof fn law_turn_order_keeps_user_turns(messages: Seq<MessageView>, i: int)
    requires
        0 <= i < messages.len(),
        messages[i].from_user(),
    ensures
        ({
            let dropped = messages.len() - in_turn_order(messages).len();
            &&& 0 <= dropped <= i
            &&& in_turn_order(messages).skip(i - dropped) == messages.skip(i)
        }),
{
    lemma_roles_differ();
    let lead = first_non_system(messages, 0);
    let user = first_user(messages, lead);
    lemma_first_positions(messages, 0);
    lemma_first_positions(messages, lead);
    lemma_system_messages(messages.subrange(lead as int, user as int));
    let dropped = messages.len() - in_turn_order(messages).len();
    assert(in_turn_order(messages).skip(i - dropped) =~= messages.skip(i));
}

} // verus!
