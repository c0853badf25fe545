use std::sync::Arc;
use zeroclaw_api::chat::{
    guided_messages, prepare_chat, select_prompt, with_tool_instructions, Dispatch,
    UnexpectedToolsPayload,
};
use zeroclaw_api::pricing::catalog_without_pricing;
use zeroclaw_api::{
    build_tool_instructions_text, ChatMessage, ChatRequest, ModelProvider, ProviderCapabilities,
    ProviderCapabilityError, ToolSpec, ToolsPayload, BASELINE_MAX_TOKENS, BASELINE_TIMEOUT_SECS,
    BASELINE_WIRE_API,
};

struct NativeAccessorOnlyProvider;

impl ModelProvider for NativeAccessorOnlyProvider {
    fn supports_native_tools(&self) -> bool {
        true
    }
}

#[test]
fn model_capabilities_preserve_native_accessor_overrides() {
    let provider = NativeAccessorOnlyProvider;

    assert!(
        !provider.capabilities().native_tool_calling,
        "the fixture must exercise the legacy accessor-only override"
    );
    assert!(
        provider
            .capabilities_for_model("requested-model")
            .native_tool_calling,
        "model-aware capability lookup must preserve legacy supports_native_tools overrides"
    );
}

struct Plain;

impl ModelProvider for Plain {}

struct Declaring;

impl ModelProvider for Declaring {
    fn capabilities(&self) -> ProviderCapabilities {
        ProviderCapabilities {
            native_tool_calling: true,
            vision: true,
            prompt_caching: true,
            extended_thinking: true,
        }
    }

    fn supports_vision(&self) -> bool {
        false
    }

    fn has_stable_request_identity(&self, model: &str) -> bool {
        model == "stable"
    }

    fn vision_limited_by(&self, model: &str) -> Option<String> {
        Some(model.to_string())
    }

    fn has_mixed_native_tool_support_for_model(&self, _model: &str) -> bool {
        true
    }

    fn default_max_tokens(&self) -> u32 {
        7
    }

    fn default_timeout_secs(&self) -> u64 {
        9
    }

    fn default_base_url(&self) -> Option<&str> {
        Some("https://example.invalid")
    }

    fn default_wire_api(&self) -> &str {
        "responses"
    }

    fn convert_tools(&self, _tools: &[ToolSpec]) -> ToolsPayload {
        ToolsPayload::OpenAI { tools: vec![] }
    }

    fn supports_streaming(&self) -> bool {
        true
    }

    fn supports_streaming_tool_events(&self) -> bool {
        true
    }
}

#[test]
fn defaults_of_a_provider() {
    let p = Plain;
    assert!(!p.has_stable_request_identity("m"));
    assert_eq!(p.capabilities(), ProviderCapabilities::default());
    assert_eq!(p.capabilities_for_model("m"), ProviderCapabilities::default());
    assert!(!p.supports_native_tools() && !p.supports_vision());
    assert_eq!(p.vision_limited_by("m"), None);
    assert!(!p.has_mixed_native_tool_support_for_model("m"));
    assert_eq!(p.default_max_tokens(), BASELINE_MAX_TOKENS);
    assert_eq!(p.default_max_tokens(), 4096);
    assert_eq!(p.default_timeout_secs(), BASELINE_TIMEOUT_SECS);
    assert_eq!(p.default_timeout_secs(), 120);
    assert_eq!(p.default_base_url(), None);
    assert_eq!(p.default_wire_api(), BASELINE_WIRE_API);
    assert_eq!(p.default_wire_api(), "chat_completions");
    assert!(!p.supports_streaming() && !p.supports_streaming_tool_events());
}

#[test]
fn accessors_win_over_declared_capabilities() {
    for model in ["m", "other", ""] {
        let c = Declaring.capabilities_for_model(model);
        assert!(c.native_tool_calling && !c.vision && c.prompt_caching && c.extended_thinking);
    }
}

#[test]
fn shared_provider_delegates() {
    let p: Arc<dyn ModelProvider> = Arc::new(Declaring);
    assert!(p.has_stable_request_identity("stable") && !p.has_stable_request_identity("other"));
    assert!(ModelProvider::capabilities(&p).extended_thinking);
    assert!(!ModelProvider::capabilities_for_model(&p, "m").vision);
    assert_eq!(ModelProvider::vision_limited_by(&p, "m").as_deref(), Some("m"));
    assert!(ModelProvider::has_mixed_native_tool_support_for_model(&p, "m"));
    assert_eq!(ModelProvider::default_max_tokens(&p), 7);
    assert_eq!(ModelProvider::default_timeout_secs(&p), 9);
    assert_eq!(ModelProvider::default_base_url(&p), Some("https://example.invalid"));
    assert_eq!(ModelProvider::default_wire_api(&p), "responses");
    assert!(matches!(ModelProvider::convert_tools(&p, &[]), ToolsPayload::OpenAI { .. }));
    assert!(ModelProvider::supports_native_tools(&p));
    assert!(!ModelProvider::supports_vision(&p));
    assert!(ModelProvider::supports_streaming(&p));
    assert!(ModelProvider::supports_streaming_tool_events(&p));
}

fn schema() -> serde_json::Value {
    serde_json::from_str("{ \"type\" : \"object\",\n \"properties\": {} }").unwrap()
}

fn tools() -> Vec<ToolSpec> {
    vec![
        ToolSpec {
            name: "read_file".to_string(),
            description: "Reads a file.".to_string(),
            parameters: schema(),
        },
        ToolSpec {
            name: "now".to_string(),
            description: String::new(),
            parameters: serde_json::Value::Null,
        },
    ]
}

const HEADER: &str = "## Tool Use Protocol\n\nTo use a tool, wrap a JSON object in <tool_call></tool_call> tags:\n\n<tool_call>\n{\"name\": \"tool_name\", \"arguments\": {\"param\": \"value\"}}\n</tool_call>\n\nYou may use multiple tool calls in a single response. After tool execution, results appear in <tool_result> tags. Continue reasoning with the results until you can give a final answer.\n\n### Available Tools\n\n";

#[test]
fn tool_instructions_are_exact() {
    assert_eq!(build_tool_instructions_text(&[]), HEADER);
    let json = serde_json::to_string(&schema()).unwrap();
    assert_eq!(
        build_tool_instructions_text(&tools()),
        format!(
            "{HEADER}**read_file**: Reads a file.\nParameters: `{json}`\n\n**now**: \nParameters: `null`\n\n"
        )
    );
    assert!(!json.contains(' '));
}

#[test]
fn unwritable_parameters_are_shown_as_an_empty_object() {
    let error = serde_json::from_str::<serde_json::Value>("{").unwrap_err();
    assert_eq!(zeroclaw_api::tool::parameters_or_empty_object(Err(error)), "{}");
    assert_eq!(zeroclaw_api::tool::parameters_or_empty_object(Ok("[1]".to_string())), "[1]");
}

#[test]
fn protocol_uses_the_texts_it_is_given() {
    let shown = vec!["P".to_string(), "Q".to_string()];
    let text = zeroclaw_api::tool::protocol_text(&tools(), &shown);
    assert_eq!(
        text,
        format!("{HEADER}**read_file**: Reads a file.\nParameters: `P`\n\n**now**: \nParameters: `Q`\n\n")
    );
}

#[test]
fn request_without_tools_is_dispatched_as_given() {
    let messages = vec![ChatMessage::user("q")];
    for tools in [None, Some(&[] as &[ToolSpec])] {
        let request = ChatRequest { messages: &messages, tools, thinking: None };
        let dispatch = prepare_chat(&Plain, request).unwrap();
        assert!(matches!(dispatch, Dispatch::AsGiven(_)));
        assert_eq!(dispatch.messages().len(), 1);
        assert_eq!(dispatch.messages()[0].content, "q");
    }
}

#[test]
fn native_tools_leave_messages_alone() {
    let messages = vec![ChatMessage::user("q")];
    let tools = tools();
    let request = ChatRequest { messages: &messages, tools: Some(&tools), thinking: None };
    let dispatch = prepare_chat(&NativeAccessorOnlyProvider, request).unwrap();
    assert!(matches!(dispatch, Dispatch::AsGiven(_)));
}

#[test]
fn tools_are_put_into_the_system_prompt() {
    let tools = tools();
    let text = build_tool_instructions_text(&tools);
    let messages = vec![
        ChatMessage::user("q"),
        ChatMessage::system("be brief"),
        ChatMessage::system("second"),
    ];
    let request = ChatRequest { messages: &messages, tools: Some(&tools), thinking: None };
    let dispatch = prepare_chat(&Plain, request).unwrap();
    let sent = dispatch.messages();
    assert_eq!(sent.len(), 3);
    assert_eq!(sent[0].content, "q");
    assert_eq!(sent[1].content, format!("be brief\n\n{text}"));
    assert_eq!(sent[2].content, "second");
    let prompt = select_prompt(sent);
    assert_eq!(prompt.system, Some(sent[1].content.as_str()));
    assert_eq!(prompt.user, "q");
}

#[test]
fn tools_get_a_system_message_of_their_own() {
    let messages = vec![ChatMessage::user("q"), ChatMessage::assistant("a")];
    let guided = with_tool_instructions(&messages, "INSTRUCTIONS".to_string());
    assert_eq!(guided.len(), 3);
    assert_eq!((guided[0].role.as_str(), guided[0].content.as_str()), ("system", "INSTRUCTIONS"));
    assert_eq!(guided[1].content, "q");
    assert_eq!(guided[2].content, "a");
    let empty = with_tool_instructions(&[ChatMessage::system("")], "I".to_string());
    assert_eq!(empty.len(), 1);
    assert_eq!(empty[0].content, "I");
}

#[test]
fn native_payload_without_native_tools_is_refused() {
    struct Confused;
    impl ModelProvider for Confused {
        fn convert_tools(&self, _tools: &[ToolSpec]) -> ToolsPayload {
            ToolsPayload::Anthropic { tools: vec![serde_json::Value::Null] }
        }
    }
    let tools = tools();
    let request = ChatRequest { messages: &[], tools: Some(&tools), thinking: None };
    let error = prepare_chat(&Confused, request).unwrap_err();
    assert!(matches!(error.payload, ToolsPayload::Anthropic { .. }));
    let words = format!("{:?}", error.payload);
    assert_eq!(
        UnexpectedToolsPayload::describe(&words),
        "ModelProvider returned non-prompt-guided tools payload (Anthropic { tools: [Null] }) while supports_native_tools() is false"
    );
    assert!(guided_messages(&[], ToolsPayload::Gemini { function_declarations: vec![] }).is_err());
    assert!(guided_messages(&[], ToolsPayload::OpenAI { tools: vec![] }).is_err());
}

#[test]
fn prompts_are_the_first_system_and_the_last_user_message() {
    let messages = vec![
        ChatMessage::user("first"),
        ChatMessage::system("one"),
        ChatMessage::user("last"),
        ChatMessage::system("two"),
        ChatMessage::assistant("a"),
    ];
    let prompt = select_prompt(&messages);
    assert_eq!(prompt.system, Some("one"));
    assert_eq!(prompt.user, "last");
    let nothing = select_prompt(&[]);
    assert_eq!(nothing.system, None);
    assert_eq!(nothing.user, "");
}

#[test]
fn catalog_keeps_ids_in_order() {
    let catalog = catalog_without_pricing(vec!["b".to_string(), "a".to_string()]);
    assert_eq!(catalog.len(), 2);
    assert_eq!(catalog[0].id, "b");
    assert_eq!(catalog[1].id, "a");
    assert!(catalog.iter().all(|m| m.pricing.is_none() && m.context_window.is_none()));
}

#[test]
fn capability_error_in_words() {
    let error = ProviderCapabilityError {
        model_provider: "p".to_string(),
        capability: "vision".to_string(),
        message: "no images".to_string(),
    };
    assert_eq!(
        error.describe(),
        "provider_capability_error model_provider=p capability=vision message=no images"
    );
}
