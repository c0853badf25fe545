use zeroclaw_api::stream::event_of;
use zeroclaw_api::{
    ModelRefusalError, NativeThinkingParams, StreamChunk, StreamError, StreamEvent, StreamOptions,
    StreamResult, ThinkingDisplay, MAX_BUDGET_TOKENS, MIN_BUDGET_TOKENS,
};

#[test]
fn as_str_maps_updates_variant() {
    assert_eq!(ThinkingDisplay::Updates.as_str(), "updates");
}

#[test]
fn as_str_maps_the_other_variants() {
    assert_eq!(ThinkingDisplay::Omitted.as_str(), "omitted");
    assert_eq!(ThinkingDisplay::Summarized.as_str(), "summarized");
}

#[test]
fn thinking_parameters_compare_by_value() {
    let params = NativeThinkingParams {
        budget_tokens: MIN_BUDGET_TOKENS,
        display: Some(ThinkingDisplay::Omitted),
    };
    let copy = params;
    assert_eq!(params, copy);
    assert_eq!(MIN_BUDGET_TOKENS, 1_024);
    assert_eq!(MAX_BUDGET_TOKENS, 128_000);
}

#[test]
fn chunks_are_built() {
    let delta = StreamChunk::delta("d");
    assert_eq!((delta.delta.as_str(), delta.is_final, delta.token_count), ("d", false, 0));
    assert_eq!(delta.reasoning, None);
    let reasoning = StreamChunk::reasoning("r");
    assert_eq!((reasoning.delta.as_str(), reasoning.is_final), ("", false));
    assert_eq!(reasoning.reasoning.as_deref(), Some("r"));
    let last = StreamChunk::final_chunk();
    assert_eq!((last.delta.as_str(), last.is_final, last.reasoning), ("", true, None));
    let error = StreamChunk::error("e");
    assert_eq!((error.delta.as_str(), error.is_final, error.reasoning), ("e", true, None));
}

#[test]
fn tokens_are_estimated_from_bytes() {
    for (text, tokens) in [("", 0), ("a", 1), ("abcd", 1), ("abcde", 2), ("éé", 1), ("你好", 2)] {
        let chunk = StreamChunk::delta(text).with_token_estimate();
        assert_eq!(chunk.token_count, tokens);
        assert_eq!(chunk.delta, text);
        assert!(!chunk.is_final);
    }
}

#[test]
fn final_chunks_become_final_events() {
    assert!(matches!(StreamEvent::from_chunk(StreamChunk::final_chunk()), StreamEvent::Final));
    assert!(matches!(StreamEvent::from_chunk(StreamChunk::error("e")), StreamEvent::Final));
    match StreamEvent::from_chunk(StreamChunk::delta("d")) {
        StreamEvent::TextDelta(chunk) => assert_eq!(chunk.delta, "d"),
        _ => panic!("a delta is a text event"),
    }
}

#[test]
fn stream_items_become_events() {
    assert!(matches!(event_of(Ok(StreamChunk::final_chunk())), Ok(StreamEvent::Final)));
    match event_of(Ok(StreamChunk::delta("d"))) {
        Ok(StreamEvent::TextDelta(chunk)) => assert_eq!(chunk.delta, "d"),
        _ => panic!("a delta is a text event"),
    }
    match event_of(Err(StreamError::Http("x".to_string()))) {
        Err(StreamError::Http(detail)) => assert_eq!(detail, "x"),
        _ => panic!("an error stays as it is"),
    }
}

#[test]
fn stream_options_are_built() {
    let options = StreamOptions::new(false);
    assert!(!options.enabled && !options.count_tokens);
    let counting = StreamOptions::new(true).with_token_count();
    assert!(counting.enabled && counting.count_tokens);
    let default = StreamOptions::default();
    assert!(default.enabled && !default.count_tokens);
}

fn refusal() -> ModelRefusalError {
    ModelRefusalError {
        requested_model: "m".to_string(),
        category: None,
        usage: None,
        attempted_candidate: None,
        attempted_candidate_index: None,
    }
}

#[test]
fn stream_errors_in_words() {
    assert_eq!(StreamError::Http("x".to_string()).describe(), "HTTP error: x");
    assert_eq!(StreamError::InvalidSse("x".to_string()).describe(), "Invalid SSE format: x");
    assert_eq!(StreamError::ModelProvider("x".to_string()).describe(), "ModelProvider error: x");
    let words = "anthropic refusal: model declined this request (safety classifiers)";
    assert_eq!(refusal().describe(), words);
    assert_eq!(StreamError::from(Box::new(refusal())).describe(), words);
    let json = serde_json::from_str::<serde_json::Value>("{").unwrap_err();
    let detail = json.to_string();
    assert_eq!(StreamError::Json(json).describe(), format!("JSON parse error: {detail}"));
    let io = std::io::Error::new(std::io::ErrorKind::Other, "broken pipe");
    assert_eq!(StreamError::from(io).describe(), "IO error: broken pipe");
}

#[test]
fn errors_convert_to_their_variants() {
    assert!(matches!(StreamError::from(Box::new(refusal())), StreamError::ModelRefusal(_)));
    let io = std::io::Error::new(std::io::ErrorKind::Other, "x");
    let result: StreamResult<()> = Err(StreamError::from(io));
    assert!(matches!(result, Err(StreamError::Io(_))));
}
