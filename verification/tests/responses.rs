use zeroclaw_api::{
    strip_think_tags, ChatResponse, SemanticEmptyTerminalCompletion, TokenUsage, ToolCall,
};

#[test]
fn semantic_empty_terminal_ignores_reasoning_content() {
    let response = ChatResponse {
        text: Some("  \n".to_string()),
        tool_calls: Vec::new(),
        usage: None,
        reasoning_content: Some("internal reasoning".to_string()),
    };

    assert!(response.is_semantically_empty_terminal());
}

#[test]
fn semantic_empty_terminal_uses_display_text_after_think_tag_stripping() {
    let response = ChatResponse {
        text: Some("<think>internal reasoning</think>".to_string()),
        tool_calls: Vec::new(),
        usage: None,
        reasoning_content: None,
    };

    assert!(response.is_semantically_empty_terminal());
}

#[test]
fn semantic_empty_terminal_keeps_tool_only_response_valid() {
    let response = ChatResponse {
        text: None,
        tool_calls: vec![ToolCall {
            id: "call_1".to_string(),
            name: "read_file".to_string(),
            arguments: "{}".to_string(),
            extra_content: None,
        }],
        usage: None,
        reasoning_content: None,
    };

    assert!(!response.is_semantically_empty_terminal());
}

#[test]
fn text_response_is_not_semantically_empty() {
    let response = ChatResponse {
        text: Some("done".to_string()),
        tool_calls: Vec::new(),
        usage: None,
        reasoning_content: None,
    };

    assert!(!response.is_semantically_empty_terminal());
}

#[test]
fn tool_only_response_is_not_semantically_empty() {
    let response = ChatResponse {
        text: None,
        tool_calls: vec![ToolCall {
            id: "call_1".to_string(),
            name: "read_file".to_string(),
            arguments: "{}".to_string(),
            extra_content: None,
        }],
        usage: None,
        reasoning_content: None,
    };

    assert!(!response.is_semantically_empty_terminal());
}

#[test]
fn response_without_anything_is_empty() {
    let response = ChatResponse {
        text: None,
        tool_calls: Vec::new(),
        usage: Some(TokenUsage::default()),
        reasoning_content: None,
    };
    assert!(response.is_semantically_empty_terminal());
    assert!(!response.has_tool_calls());
    assert_eq!(response.text_or_empty(), "");
}

#[test]
fn text_and_tool_calls_are_read() {
    let response = ChatResponse {
        text: Some(" hi ".to_string()),
        tool_calls: vec![ToolCall {
            id: "1".to_string(),
            name: "n".to_string(),
            arguments: "{}".to_string(),
            extra_content: Some(serde_json::Value::Bool(true)),
        }],
        usage: None,
        reasoning_content: None,
    };
    assert!(response.has_tool_calls());
    assert_eq!(response.text_or_empty(), " hi ");
    assert_eq!(response.clone().tool_calls[0].extra_content, Some(serde_json::Value::Bool(true)));
}

#[test]
fn stripping_cuts_closed_reasoning() {
    assert_eq!(strip_think_tags("a<think>x</think>b"), "ab");
    assert_eq!(strip_think_tags(" a <think>x</think> b <think>y</think> c "), "a  b  c");
    assert_eq!(strip_think_tags("<think>é</think>ü — 你好"), "ü — 你好");
    assert_eq!(strip_think_tags("<think></think>"), "");
    assert_eq!(strip_think_tags("<think><think>x</think>y</think>"), "y</think>");
}

#[test]
fn stripping_suppresses_unclosed_reasoning() {
    assert_eq!(strip_think_tags("visible <think>partial"), "visible");
    assert_eq!(strip_think_tags("a<think>x</think>b<think>c</think"), "ab");
    assert_eq!(strip_think_tags("<think>"), "");
}

#[test]
fn reasoning_never_shows() {
    for before in ["a", "a<think>b", "a<think>b</think>c<think>d</thi", "</think>"] {
        for rest in ["", "x", "<think>", "</thin"] {
            assert_eq!(strip_think_tags(&format!("{before}<think>{rest}")), strip_think_tags(before));
            assert_eq!(
                strip_think_tags(&format!("{before}<think>{rest}</think>after")),
                strip_think_tags(&format!("{before}<think>other</think>after"))
            );
        }
    }
    assert_eq!(strip_think_tags("a<think>b<think>c</think>d"), "ad");
}

#[test]
fn stripping_leaves_text_without_reasoning() {
    assert_eq!(strip_think_tags(""), "");
    assert_eq!(strip_think_tags(" \u{3000}plain </think> text\n"), "plain </think> text");
    assert_eq!(strip_think_tags("<thin>k</thin>"), "<thin>k</thin>");
}

#[test]
fn stripping_is_not_repeated() {
    assert_eq!(strip_think_tags("<th<think>x</think>ink>y"), "<think>y");
}

#[test]
fn final_text_becomes_a_response() {
    let response = ChatResponse::from_final_text("<think>r</think> done ".to_string()).unwrap();
    assert_eq!(response.text.as_deref(), Some("<think>r</think> done "));
    assert!(response.tool_calls.is_empty());
    assert!(response.usage.is_none());
    assert!(response.reasoning_content.is_none());
    assert!(!response.is_semantically_empty_terminal());
}

#[test]
fn blank_final_text_is_refused() {
    for text in ["", " \t\n", "<think>only reasoning</think>", "\u{2003}<think>partial"] {
        assert!(ChatResponse::from_final_text(text.to_string()).is_err());
    }
    assert_eq!(
        SemanticEmptyTerminalCompletion.describe(),
        "provider completed without final text or tool calls"
    );
}

#[test]
fn usage_defaults_to_nothing_reported() {
    let usage = TokenUsage::default();
    assert_eq!(usage.input_tokens, None);
    assert_eq!(usage.output_tokens, None);
    assert_eq!(usage.cached_input_tokens, None);
    assert_eq!(usage.cache_creation_input_tokens, None);
}
