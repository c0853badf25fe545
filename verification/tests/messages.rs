use zeroclaw_api::{
    ChatMessage, PRUNED_CONTEXT_SEPARATOR, PRUNED_TOOL_EXCHANGE_SUMMARY_PREFIX,
    PRUNED_TOOL_EXCHANGE_SUMMARY_SUFFIX,
};

#[test]
fn drops_leading_assistant_tool_call_before_first_user() {
    let mut msgs = vec![
        ChatMessage::system("sys"),
        ChatMessage::assistant("[tool_call] fire"),
        ChatMessage::tool("result"),
        ChatMessage::user("actual user"),
    ];
    ChatMessage::sanitize_leading_turn_order(&mut msgs);
    assert_eq!(msgs[0].role, "system");
    assert_eq!(msgs[1].role, "user");
    assert_eq!(msgs[1].content, "actual user");
}

#[test]
fn drops_leading_orphan_tool_turn() {
    let mut msgs = vec![ChatMessage::tool("orphan result"), ChatMessage::user("hi")];
    ChatMessage::sanitize_leading_turn_order(&mut msgs);
    assert_eq!(msgs.len(), 1);
    assert_eq!(msgs[0].role, "user");
}

#[test]
fn preserves_already_valid_history() {
    let mut msgs = vec![
        ChatMessage::system("sys"),
        ChatMessage::user("q"),
        ChatMessage::assistant("[tool_call] x"),
        ChatMessage::tool("r"),
        ChatMessage::assistant("done"),
    ];
    let before = msgs.clone();
    ChatMessage::sanitize_leading_turn_order(&mut msgs);
    assert_eq!(msgs.len(), before.len());
    assert_eq!(msgs[1].role, "user");
}

#[test]
fn no_user_turn_drops_all_non_system() {
    let mut msgs = vec![
        ChatMessage::system("sys"),
        ChatMessage::assistant("[tool_call] x"),
        ChatMessage::tool("r"),
    ];
    ChatMessage::sanitize_leading_turn_order(&mut msgs);
    assert_eq!(msgs.len(), 1);
    assert_eq!(msgs[0].role, "system");
}

#[test]
fn empty_history_is_noop() {
    let mut msgs: Vec<ChatMessage> = vec![];
    ChatMessage::sanitize_leading_turn_order(&mut msgs);
    assert!(msgs.is_empty());
}

fn contents(messages: &[ChatMessage]) -> Vec<(String, String)> {
    messages.iter().map(|m| (m.role.clone(), m.content.clone())).collect()
}

#[test]
fn sanitizing_twice_is_sanitizing_once() {
    let mut msgs = vec![
        ChatMessage::system("a"),
        ChatMessage::system("b"),
        ChatMessage::tool("orphan"),
        ChatMessage::system("late"),
        ChatMessage::user("q"),
        ChatMessage::system("c"),
        ChatMessage::user("r"),
    ];
    ChatMessage::sanitize_leading_turn_order(&mut msgs);
    let once = contents(&msgs);
    assert_eq!(
        once,
        vec![
            ("system".to_string(), "a".to_string()),
            ("system".to_string(), "b".to_string()),
            ("system".to_string(), "late".to_string()),
            ("user".to_string(), "q".to_string()),
            ("system".to_string(), "c".to_string()),
            ("user".to_string(), "r".to_string()),
        ]
    );
    ChatMessage::sanitize_leading_turn_order(&mut msgs);
    assert_eq!(contents(&msgs), once);
}

#[test]
fn without_user_turn_every_system_message_is_kept() {
    let mut msgs = vec![
        ChatMessage::system("s1"),
        ChatMessage::assistant("a"),
        ChatMessage::system("s2"),
        ChatMessage::tool("t"),
    ];
    ChatMessage::sanitize_leading_turn_order(&mut msgs);
    assert_eq!(
        contents(&msgs),
        vec![
            ("system".to_string(), "s1".to_string()),
            ("system".to_string(), "s2".to_string()),
        ]
    );
}

#[test]
fn only_system_messages_are_kept_whole() {
    let mut msgs = vec![ChatMessage::system("a"), ChatMessage::system("b")];
    ChatMessage::sanitize_leading_turn_order(&mut msgs);
    assert_eq!(msgs.len(), 2);
}

#[test]
fn constructors_set_role_and_content() {
    let s = ChatMessage::system("s");
    assert_eq!((s.role.as_str(), s.content.as_str()), ("system", "s"));
    let u = ChatMessage::user(String::from("u"));
    assert_eq!((u.role.as_str(), u.content.as_str()), ("user", "u"));
    let a = ChatMessage::assistant("a");
    assert_eq!((a.role.as_str(), a.content.as_str()), ("assistant", "a"));
    let t = ChatMessage::tool("t");
    assert_eq!((t.role.as_str(), t.content.as_str()), ("tool", "t"));
    assert!(s.is_system() && !s.is_user());
    assert!(u.is_user() && !u.is_system());
    assert!(!a.is_user() && !a.is_system() && !t.is_user() && !t.is_system());
}

#[test]
fn summary_text_is_exact() {
    assert_eq!(
        ChatMessage::pruned_tool_exchange_summary(0),
        "[Tool exchange: 0 tool call(s) — results collapsed]"
    );
    assert_eq!(
        ChatMessage::pruned_tool_exchange_summary(1024),
        "[Tool exchange: 1024 tool call(s) — results collapsed]"
    );
    let n = usize::MAX;
    assert_eq!(
        ChatMessage::pruned_tool_exchange_summary(n),
        format!(
            "{PRUNED_TOOL_EXCHANGE_SUMMARY_PREFIX} {n} tool call(s) — {PRUNED_TOOL_EXCHANGE_SUMMARY_SUFFIX}"
        )
    );
}

#[test]
fn summary_of_an_exchange_is_recognised() {
    let text = ChatMessage::pruned_tool_exchange_summary(3);
    assert!(ChatMessage::assistant(text.clone()).is_pruned_tool_exchange_summary());
    assert!(!ChatMessage::user(text.clone()).is_pruned_tool_exchange_summary());
    assert!(!ChatMessage::assistant(format!(" {text}")).is_pruned_tool_exchange_summary());
    assert!(ChatMessage::assistant(format!("{text} more")).is_pruned_tool_exchange_summary());
    assert!(!ChatMessage::assistant("[Tool exchange:").is_pruned_tool_exchange_summary());
    assert!(!ChatMessage::assistant("results collapsed]").is_pruned_tool_exchange_summary());
}

#[test]
fn context_separator_is_recognised() {
    let separator = ChatMessage::pruned_context_separator();
    assert_eq!(separator.role, "user");
    assert_eq!(separator.content, PRUNED_CONTEXT_SEPARATOR);
    assert!(separator.is_pruned_context_separator());
    assert!(ChatMessage::user(" \n[context continues]\u{a0}").is_pruned_context_separator());
    assert!(!ChatMessage::user("[context continues] x").is_pruned_context_separator());
    assert!(!ChatMessage::system("[context continues]").is_pruned_context_separator());
}

#[test]
fn markers_are_skipped() {
    let summary = ChatMessage::assistant(ChatMessage::pruned_tool_exchange_summary(1));
    let messages = vec![
        ChatMessage::pruned_context_separator(),
        summary,
        ChatMessage::pruned_context_separator(),
        ChatMessage::pruned_context_separator(),
        ChatMessage::user("q"),
    ];
    let skipped: Vec<bool> = (0..6)
        .map(|i| ChatMessage::should_skip_internal_pruning_marker(&messages, i))
        .collect();
    assert_eq!(skipped, vec![false, true, true, false, false, false]);
    assert!(!ChatMessage::should_skip_internal_pruning_marker(&[], 0));
    assert!(!ChatMessage::should_skip_internal_pruning_marker(&messages, usize::MAX));
}
