//! What goes to a model provider and what comes back.
use crate::json::{Json, JsonNumber, JsonView};
use crate::message::{CacheControl, CacheTtl, Content, ContentView, Message, MessageView, StopReason, Usage};
use crate::text::views;
use vstd::prelude::*;

verus! {

/// A tool as the model is told of it. A cache breakpoint ends a cached prefix
/// at this definition.
#[derive(Debug)]
pub struct ToolDefinition {
    pub name: String,
    pub description: String,
    pub input_schema: Json,
    pub cache_control: Option<CacheControl>,
}

/// What a [`ToolDefinition`] stands for.
#[verifier::ext_equal]
pub struct ToolDefinitionView {
    pub name: Seq<char>,
    pub description: Seq<char>,
    pub input_schema: JsonView,
    pub cache_control: Option<CacheControl>,
}

impl View for ToolDefinition {
    type V = ToolDefinitionView;

    open spec fn view(&self) -> ToolDefinitionView {
        ToolDefinitionView {
            name: self.name@,
            description: self.description@,
            input_schema: self.input_schema@,
            cache_control: self.cache_control,
        }
    }
}

impl Clone for ToolDefinition {
    fn clone(&self) -> (r: ToolDefinition)
        ensures
            r@ == self@,
    {
        ToolDefinition {
            name: self.name.clone(),
            description: self.description.clone(),
            input_schema: self.input_schema.clone(),
            cache_control: self.cache_control,
        }
    }
}

/// One block of the system prompt.
#[derive(Debug, PartialEq, Eq)]
pub struct SystemBlock {
    pub text: String,
    pub cache_control: Option<CacheControl>,
}

/// What a [`SystemBlock`] stands for.
#[verifier::ext_equal]
pub struct SystemBlockView {
    pub text: Seq<char>,
    pub cache_control: Option<CacheControl>,
}

impl View for SystemBlock {
    type V = SystemBlockView;

    open spec fn view(&self) -> SystemBlockView {
        SystemBlockView { text: self.text@, cache_control: self.cache_control }
    }
}

impl SystemBlock {
    /// A plain block, without a cache breakpoint.
    pub fn text(s: &str) -> (r: SystemBlock)
        ensures
            r@ == (SystemBlockView { text: s@, cache_control: None }),
    {
        SystemBlock { text: s.to_owned(), cache_control: None }
    }

    /// A block that is a cache breakpoint with the default lifetime.
    pub fn cached(s: &str) -> (r: SystemBlock)
        ensures
            r@ == (SystemBlockView {
                text: s@,
                cache_control: Some(CacheControl { ttl: CacheTtl::FiveMinutes }),
            }),
    {
        SystemBlock { text: s.to_owned(), cache_control: Some(CacheControl::ephemeral()) }
    }

    /// A block that is a cache breakpoint with a lifetime of one hour.
    pub fn cached_1h(s: &str) -> (r: SystemBlock)
        ensures
            r@ == (SystemBlockView {
                text: s@,
                cache_control: Some(CacheControl { ttl: CacheTtl::OneHour }),
            }),
    {
        SystemBlock { text: s.to_owned(), cache_control: Some(CacheControl::ephemeral_1h()) }
    }
}

impl Clone for SystemBlock {
    fn clone(&self) -> (r: SystemBlock)
        ensures
            r@ == self@,
    {
        SystemBlock { text: self.text.clone(), cache_control: self.cache_control }
    }
}

/// Symbolic thinking effort.
#[derive(Clone, Debug, PartialEq, Eq)]
pub enum ThinkingEffort {
    Low,
    Medium,
    High,
    /// A vendor's own tier, forwarded as it stands.
    Other(String),
}

/// Thinking configuration of one call; it goes before the provider's own.
#[derive(Debug, PartialEq, Eq)]
pub enum ThinkingConfig {
    /// A symbolic effort level.
    Effort(ThinkingEffort),
    /// A budget in tokens, for providers that have one.
    Budget(u32),
    /// No thinking in this call.
    Disabled,
}

impl Clone for ThinkingConfig {
    fn clone(&self) -> (r: ThinkingConfig)
        ensures
            r == *self,
    {
        match self {
            ThinkingConfig::Effort(ThinkingEffort::Low) => ThinkingConfig::Effort(
                ThinkingEffort::Low,
            ),
            ThinkingConfig::Effort(ThinkingEffort::Medium) => ThinkingConfig::Effort(
                ThinkingEffort::Medium,
            ),
            ThinkingConfig::Effort(ThinkingEffort::High) => ThinkingConfig::Effort(
                ThinkingEffort::High,
            ),
            ThinkingConfig::Effort(ThinkingEffort::Other(name)) => ThinkingConfig::Effort(
                ThinkingEffort::Other(name.clone()),
            ),
            ThinkingConfig::Budget(tokens) => ThinkingConfig::Budget(*tokens),
            ThinkingConfig::Disabled => ThinkingConfig::Disabled,
        }
    }
}

/// A request to a model provider.
#[derive(Clone, Debug)]
pub struct Request {
    pub model: String,
    pub system: Option<Vec<SystemBlock>>,
    pub messages: Vec<Message>,
    pub tools: Vec<ToolDefinition>,
    pub max_tokens: u32,
    pub temperature: Option<JsonNumber>,
    pub thinking: Option<ThinkingConfig>,
}

/// What a [`Request`] stands for.
#[verifier::ext_equal]
pub struct RequestView {
    pub model: Seq<char>,
    pub system: Option<Seq<SystemBlockView>>,
    pub messages: Seq<MessageView>,
    pub tools: Seq<ToolDefinitionView>,
    pub max_tokens: u32,
    pub temperature: Option<JsonNumber>,
    pub thinking: Option<ThinkingConfig>,
}

/// The blocks of an optional system prompt.
pub open spec fn optional_blocks(system: Option<Vec<SystemBlock>>) -> Option<
    Seq<SystemBlockView>,
> {
    match system {
        Some(blocks) => Some(views(blocks@)),
        None => None,
    }
}

impl View for Request {
    type V = RequestView;

    open spec fn view(&self) -> RequestView {
        RequestView {
            model: self.model@,
            system: optional_blocks(self.system),
            messages: views(self.messages@),
            tools: views(self.tools@),
            max_tokens: self.max_tokens,
            temperature: self.temperature,
            thinking: self.thinking,
        }
    }
}

/// A provider's complete answer.
#[derive(Clone, Debug)]
pub struct Response {
    pub content: Vec<Content>,
    pub stop_reason: StopReason,
    pub usage: Usage,
}

/// What a [`Response`] stands for.
#[verifier::ext_equal]
pub struct ResponseView {
    pub content: Seq<ContentView>,
    pub stop_reason: StopReason,
    pub usage: Usage,
}

impl View for Response {
    type V = ResponseView;

    open spec fn view(&self) -> ResponseView {
        ResponseView {
            content: views(self.content@),
            stop_reason: self.stop_reason,
            usage: self.usage,
        }
    }
}

} // verus!
