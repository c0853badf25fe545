//! What a model provider declares about itself.
use crate::tool::{build_tool_instructions_text, ToolSpec, ToolsPayload};
use std::sync::Arc;
use vstd::prelude::*;

verus! {

// ---------------------------------------------------------------------------
// Baseline defaults
// ---------------------------------------------------------------------------
/// Output-token budget roomy enough for typical agent turns.
pub const BASELINE_MAX_TOKENS: u32 = 4096;

/// HTTP timeout for cloud inference, in seconds.
pub const BASELINE_TIMEOUT_SECS: u64 = 120;

/// Wire protocol used when the provider doesn't declare one.
pub const BASELINE_WIRE_API: &'static str = "chat_completions";

// ---------------------------------------------------------------------------
// Capabilities
// ---------------------------------------------------------------------------
/// Structured error returned when a requested capability is not supported.
#[derive(Debug, Clone)]
pub struct ProviderCapabilityError {
    /// The provider that was asked.
    pub model_provider: String,
    /// The capability that it lacks.
    pub capability: String,
    /// What went wrong.
    pub message: String,
}

impl ProviderCapabilityError {
    /// The error in words.
    pub fn describe(&self) -> (description: String)
        ensures
            description@ == "provider_capability_error model_provider="@ + self.model_provider@
                + " capability="@ + self.capability@ + " message="@ + self.message@,
    {
        let mut description = "provider_capability_error model_provider=".to_string();
        description.append(self.model_provider.as_str());
        description.append(" capability=");
        description.append(self.capability.as_str());
        description.append(" message=");
        description.append(self.message.as_str());
        description
    }
}

/// Provider capabilities declaration.
///
/// Describes what features a provider supports, enabling intelligent adaptation
/// of tool calling modes and request formatting.
#[derive(Debug, Clone, PartialEq, Eq, Structural)]
pub struct ProviderCapabilities {
    /// Whether the provider supports native tool calling via API primitives.
    pub native_tool_calling: bool,
    /// Whether the provider supports vision / image inputs.
    pub vision: bool,
    /// Whether the provider supports prompt caching.
    pub prompt_caching: bool,
    /// Whether the provider supports native extended thinking.
    pub extended_thinking: bool,
}

impl Default for ProviderCapabilities {
    /// Nothing is supported.
    fn default() -> (capabilities: Self)
        ensures
            capabilities == ProviderCapabilities::none(),
            !capabilities.native_tool_calling,
            !capabilities.vision,
            !capabilities.prompt_caching,
            !capabilities.extended_thinking,
    {
        ProviderCapabilities {
            native_tool_calling: false,
            vision: false,
            prompt_caching: false,
            extended_thinking: false,
        }
    }
}

impl ProviderCapabilities {
    /// Nothing is supported.
    pub open spec fn none() -> Self {
        ProviderCapabilities {
            native_tool_calling: false,
            vision: false,
            prompt_caching: false,
            extended_thinking: false,
        }
    }

    /// These capabilities with tool calling and vision as given.
    pub open spec fn overridden(self, native_tool_calling: bool, vision: bool) -> Self {
        ProviderCapabilities { native_tool_calling, vision, ..self }
    }

    /// These capabilities with tool calling and vision as the convenience
    /// accessors report them.
    pub fn with_accessors(self, native_tool_calling: bool, vision: bool) -> (capabilities: Self)
        ensures
            capabilities == self.overridden(native_tool_calling, vision),
            capabilities.native_tool_calling == native_tool_calling,
            capabilities.vision == vision,
            capabilities.prompt_caching == self.prompt_caching,
            capabilities.extended_thinking == self.extended_thinking,
    {
        let mut capabilities = self;
        capabilities.native_tool_calling = native_tool_calling;
        capabilities.vision = vision;
        capabilities
    }
}

// ---------------------------------------------------------------------------
// The declarations of a provider
// ---------------------------------------------------------------------------
/// What a provider declares about itself, and how it presents tools.
///
/// Every method has a default that a provider may override; what a default
/// returns is stated over what the other methods return.
pub trait ModelProvider: Send + Sync {
    /// Whether repeated requests for `model` are dispatched to one stable
    /// provider/model identity.
    ///
    /// The default is deliberately unstable: callers use this fact to fail closed
    /// for identity-sensitive behavior such as persistent full-response caching.
    fn has_stable_request_identity(&self, _model: &str) -> (stable: bool)
        default_ensures
            !stable,
    {
        false
    }

    /// Query provider capabilities.
    fn capabilities(&self) -> (capabilities: ProviderCapabilities)
        default_ensures
            capabilities == ProviderCapabilities::none(),
            !capabilities.native_tool_calling,
            !capabilities.vision,
            !capabilities.prompt_caching,
            !capabilities.extended_thinking,
    {
        ProviderCapabilities::default()
    }

    /// Query the effective capabilities for the model that will be dispatched.
    ///
    /// The default takes tool calling and vision from the convenience accessors, so
    /// that a provider that overrides only those is understood.
    fn capabilities_for_model(&self, _model: &str) -> (capabilities: ProviderCapabilities)
        default_ensures
            exists|declared: ProviderCapabilities, native_tools: bool, vision: bool|
                {
                    &&& #[trigger] call_ensures(Self::capabilities, (self,), declared)
                    &&& #[trigger] call_ensures(Self::supports_native_tools, (self,), native_tools)
                    &&& #[trigger] call_ensures(Self::supports_vision, (self,), vision)
                    &&& capabilities == declared.overridden(native_tools, vision)
                },
    {
        let declared = self.capabilities();
        let native_tools = self.supports_native_tools();
        let vision = self.supports_vision();
        declared.with_accessors(native_tools, vision)
    }

    /// Name the entry that forced `vision` to `false`, for providers that aggregate
    /// several named entries into one capability set.
    fn vision_limited_by(&self, _model: &str) -> (entry: Option<String>)
        default_ensures
            entry is None,
    {
        None
    }

    /// Whether the selected request can reach both native-tool and text-only
    /// candidates.
    fn has_mixed_native_tool_support_for_model(&self, _model: &str) -> (mixed: bool)
        default_ensures
            !mixed,
    {
        false
    }

    /// Max output tokens used when the caller / config doesn't set one.
    fn default_max_tokens(&self) -> (tokens: u32)
        default_ensures
            tokens == BASELINE_MAX_TOKENS,
    {
        BASELINE_MAX_TOKENS
    }

    /// HTTP timeout (seconds) used when the caller / config doesn't set one.
    fn default_timeout_secs(&self) -> (seconds: u64)
        default_ensures
            seconds == BASELINE_TIMEOUT_SECS,
    {
        BASELINE_TIMEOUT_SECS
    }

    /// Canonical public API endpoint, when there is one.
    fn default_base_url(&self) -> (url: Option<&str>)
        default_ensures
            url is None,
    {
        None
    }

    /// Wire protocol variant. Either `"responses"` (OpenAI Codex-style) or
    /// `"chat_completions"` (everything else).
    fn default_wire_api(&self) -> (protocol: &str)
        default_ensures
            protocol@ == BASELINE_WIRE_API@,
    {
        BASELINE_WIRE_API
    }

    /// Convert tool specifications to provider-native format.
    fn convert_tools(&self, tools: &[ToolSpec]) -> (payload: ToolsPayload)
        default_ensures
            payload matches ToolsPayload::PromptGuided { instructions } && instructions@
                == crate::tool::protocol(crate::tool::shown_tools(tools@)),
    {
        ToolsPayload::PromptGuided { instructions: build_tool_instructions_text(tools) }
    }

    /// Whether provider supports native tool calls over API.
    fn supports_native_tools(&self) -> (yes: bool)
        default_ensures
            exists|declared: ProviderCapabilities|
                {
                    &&& #[trigger] call_ensures(Self::capabilities, (self,), declared)
                    &&& yes == declared.native_tool_calling
                },
    {
        self.capabilities().native_tool_calling
    }

    /// Whether provider supports multimodal vision input.
    fn supports_vision(&self) -> (yes: bool)
        default_ensures
            exists|declared: ProviderCapabilities|
                {
                    &&& #[trigger] call_ensures(Self::capabilities, (self,), declared)
                    &&& yes == declared.vision
                },
    {
        self.capabilities().vision
    }

    /// Whether provider supports streaming responses.
    fn supports_streaming(&self) -> (yes: bool)
        default_ensures
            !yes,
    {
        false
    }

    /// Whether provider can emit structured tool-call stream events.
    fn supports_streaming_tool_events(&self) -> (yes: bool)
        default_ensures
            !yes,
    {
        false
    }
}

/// A shared provider declares what the provider itself declares.
impl<T: ModelProvider + ?Sized> ModelProvider for Arc<T> {
    fn has_stable_request_identity(&self, model: &str) -> (stable: bool)
        ensures
            call_ensures(T::has_stable_request_identity, (&**self, model), stable),
    {
        (**self).has_stable_request_identity(model)
    }

    fn capabilities(&self) -> (capabilities: ProviderCapabilities)
        ensures
            call_ensures(T::capabilities, (&**self,), capabilities),
    {
        (**self).capabilities()
    }

    fn capabilities_for_model(&self, model: &str) -> (capabilities: ProviderCapabilities)
        ensures
            call_ensures(T::capabilities_for_model, (&**self, model), capabilities),
    {
        (**self).capabilities_for_model(model)
    }

    fn vision_limited_by(&self, model: &str) -> (entry: Option<String>)
        ensures
            call_ensures(T::vision_limited_by, (&**self, model), entry),
    {
        (**self).vision_limited_by(model)
    }

    fn has_mixed_native_tool_support_for_model(&self, model: &str) -> (mixed: bool)
        ensures
            call_ensures(T::has_mixed_native_tool_support_for_model, (&**self, model), mixed),
    {
        (**self).has_mixed_native_tool_support_for_model(model)
    }

    fn default_max_tokens(&self) -> (tokens: u32)
        ensures
            call_ensures(T::default_max_tokens, (&**self,), tokens),
    {
        (**self).default_max_tokens()
    }

    fn default_timeout_secs(&self) -> (seconds: u64)
        ensures
            call_ensures(T::default_timeout_secs, (&**self,), seconds),
    {
        (**self).default_timeout_secs()
    }

    fn default_base_url(&self) -> (url: Option<&str>)
        ensures
            call_ensures(T::default_base_url, (&**self,), url),
    {
        (**self).default_base_url()
    }

    fn default_wire_api(&self) -> (protocol: &str)
        ensures
            call_ensures(T::default_wire_api, (&**self,), protocol),
    {
        (**self).default_wire_api()
    }

    fn convert_tools(&self, tools: &[ToolSpec]) -> (payload: ToolsPayload)
        ensures
            call_ensures(T::convert_tools, (&**self, tools), payload),
    {
        (**self).convert_tools(tools)
    }

    fn supports_native_tools(&self) -> (yes: bool)
        ensures
            call_ensures(T::supports_native_tools, (&**self,), yes),
    {
        (**self).supports_native_tools()
    }

    fn supports_vision(&self) -> (yes: bool)
        ensures
            call_ensures(T::supports_vision, (&**self,), yes),
    {
        (**self).supports_vision()
    }

    fn supports_streaming(&self) -> (yes: bool)
        ensures
            call_ensures(T::supports_streaming, (&**self,), yes),
    {
        (**self).supports_streaming()
    }

    fn supports_streaming_tool_events(&self) -> (yes: bool)
        ensures
            call_ensures(T::supports_streaming_tool_events, (&**self,), yes),
    {
        (**self).supports_streaming_tool_events()
    }
}

// ---------------------------------------------------------------------------
// Laws
// ---------------------------------------------------------------------------
/// `capabilities` is what the default of [`ModelProvider::capabilities_for_model`]
/// may return for `provider`.
pub open spec fn resolved_by_default<P: ModelProvider + ?Sized>(
    provider: &P,
    capabilities: ProviderCapabilities,
) -> bool {
    exists|declared: ProviderCapabilities, native_tools: bool, vision: bool|
        {
            &&& #[trigger] call_ensures(P::capabilities, (provider,), declared)
            &&& #[trigger] call_ensures(P::supports_native_tools, (provider,), native_tools)
            &&& #[trigger] call_ensures(P::supports_vision, (provider,), vision)
            &&& capabilities == declared.overridden(native_tools, vision)
        }
}

/// Where a provider keeps the default of
/// [`ModelProvider::capabilities_for_model`], its convenience accessors decide tool
/// calling and vision, its declaration decides the rest, and the result is the same
/// for every model. A provider that declares nothing and whose accessors say no has
/// no capability for any model.
pub proof fn law_accessors_decide_model_capabilities<P: ModelProvider + ?Sized>(
    provider: &P,
    declared: ProviderCapabilities,
    native_tools: bool,
    vision: bool,
    capabilities: ProviderCapabilities,
)
    requires
        forall|c: ProviderCapabilities|
            call_ensures(P::capabilities, (provider,), c) ==> c == declared,
        forall|yes: bool|
            call_ensures(P::supports_native_tools, (provider,), yes) ==> yes == native_tools,
        forall|yes: bool| call_ensures(P::supports_vision, (provider,), yes) ==> yes == vision,
        resolved_by_default(provider, capabilities),
    ensures
        capabilities == (ProviderCapabilities {
            native_tool_calling: native_tools,
            vision,
            prompt_caching: declared.prompt_caching,
            extended_thinking: declared.extended_thinking,
        }),
        declared == ProviderCapabilities::none() && !native_tools && !vision ==> capabilities
            == ProviderCapabilities::none(),
{
}

} // verus!
