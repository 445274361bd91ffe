//! Messages: what the caller, the model and the tools say to each other.
use crate::json::{Json, JsonView};
use crate::text::{views, views_push};
use vstd::prelude::*;
use vstd::string::*;

verus! {

/// Who speaks.
#[derive(Clone, Copy, Debug, PartialEq, Eq, Structural)]
pub enum Role {
    User,
    Assistant,
}

/// Why a model turn ended.
#[derive(Clone, Copy, Debug, PartialEq, Eq, Structural)]
pub enum StopReason {
    EndTurn,
    ToolUse,
    MaxTokens,
    Cancelled,
}

/// Token counts of one or more model turns.
#[derive(Clone, Copy, Debug, PartialEq, Eq, Structural)]
pub struct Usage {
    pub input_tokens: u32,
    pub output_tokens: u32,
    pub cache_creation_input_tokens: u32,
    pub cache_read_input_tokens: u32,
}

/// The sum of two counts, at most `u32::MAX`.
pub open spec fn saturating_sum(a: u32, b: u32) -> u32 {
    if a + b > u32::MAX {
        u32::MAX
    } else {
        (a + b) as u32
    }
}

/// The larger of two counts.
pub open spec fn larger(a: u32, b: u32) -> u32 {
    if a < b {
        b
    } else {
        a
    }
}

fn larger_of(a: u32, b: u32) -> (r: u32)
    ensures
        r == larger(a, b),
{
    if a < b {
        b
    } else {
        a
    }
}

impl Usage {
    /// No tokens at all.
    pub open spec fn zero() -> Usage {
        Usage {
            input_tokens: 0,
            output_tokens: 0,
            cache_creation_input_tokens: 0,
            cache_read_input_tokens: 0,
        }
    }

    /// Field by field, the sum.
    pub open spec fn plus(self, other: Usage) -> Usage {
        Usage {
            input_tokens: saturating_sum(self.input_tokens, other.input_tokens),
            output_tokens: saturating_sum(self.output_tokens, other.output_tokens),
            cache_creation_input_tokens: saturating_sum(
                self.cache_creation_input_tokens,
                other.cache_creation_input_tokens,
            ),
            cache_read_input_tokens: saturating_sum(
                self.cache_read_input_tokens,
                other.cache_read_input_tokens,
            ),
        }
    }

    /// Field by field, the larger count.
    pub open spec fn max_with(self, other: Usage) -> Usage {
        Usage {
            input_tokens: larger(self.input_tokens, other.input_tokens),
            output_tokens: larger(self.output_tokens, other.output_tokens),
            cache_creation_input_tokens: larger(
                self.cache_creation_input_tokens,
                other.cache_creation_input_tokens,
            ),
            cache_read_input_tokens: larger(
                self.cache_read_input_tokens,
                other.cache_read_input_tokens,
            ),
        }
    }

    /// Adds the counts of one more turn; a count that would overflow stays at
    /// the largest value.
    pub fn add(&mut self, other: &Usage)
        ensures
            *final(self) == old(self).plus(*other),
    {
        self.input_tokens = self.input_tokens.saturating_add(other.input_tokens);
        self.output_tokens = self.output_tokens.saturating_add(other.output_tokens);
        self.cache_creation_input_tokens =
        self.cache_creation_input_tokens.saturating_add(other.cache_creation_input_tokens);
        self.cache_read_input_tokens =
        self.cache_read_input_tokens.saturating_add(other.cache_read_input_tokens);
    }

    /// Merges a second report on the same turn: each count is the larger of
    /// the two.
    pub fn merge_max(&mut self, other: &Usage)
        ensures
            *final(self) == old(self).max_with(*other),
    {
        self.input_tokens = larger_of(self.input_tokens, other.input_tokens);
        self.output_tokens = larger_of(self.output_tokens, other.output_tokens);
        self.cache_creation_input_tokens =
        larger_of(self.cache_creation_input_tokens, other.cache_creation_input_tokens);
        self.cache_read_input_tokens =
        larger_of(self.cache_read_input_tokens, other.cache_read_input_tokens);
    }
}

impl Default for Usage {
    fn default() -> (r: Usage)
        ensures
            r == Usage::zero(),
    {
        Usage {
            input_tokens: 0,
            output_tokens: 0,
            cache_creation_input_tokens: 0,
            cache_read_input_tokens: 0,
        }
    }
}

/// How long a cached prefix lives.
#[derive(Clone, Copy, Debug, PartialEq, Eq, Structural)]
pub enum CacheTtl {
    FiveMinutes,
    OneHour,
}

/// A cache breakpoint.
#[derive(Clone, Copy, Debug, PartialEq, Eq, Structural)]
pub struct CacheControl {
    pub ttl: CacheTtl,
}

impl CacheControl {
    /// A breakpoint with the default lifetime of five minutes.
    pub fn ephemeral() -> (r: CacheControl)
        ensures
            r.ttl == CacheTtl::FiveMinutes,
    {
        CacheControl { ttl: CacheTtl::FiveMinutes }
    }

    /// A breakpoint that lives an hour.
    pub fn ephemeral_1h() -> (r: CacheControl)
        ensures
            r.ttl == CacheTtl::OneHour,
    {
        CacheControl { ttl: CacheTtl::OneHour }
    }
}

/// Whose reasoning a thinking block is.
#[derive(Clone, Copy, Debug, PartialEq, Eq, Structural)]
pub enum ThinkingProvider {
    Anthropic,
    OpenAIResponses,
}

/// What a provider needs to accept a thinking block back.
#[derive(Debug)]
pub enum ThinkingMetadata {
    Anthropic { signature: Option<String> },
    AnthropicRedacted { data: String },
    OpenAIResponses {
        item_id: Option<String>,
        output_index: Option<u64>,
        summary_index: u64,
        encrypted_content: Option<String>,
    },
}

/// What [`ThinkingMetadata`] stands for.
#[verifier::ext_equal]
pub enum ThinkingMetadataView {
    Anthropic { signature: Option<Seq<char>> },
    AnthropicRedacted { data: Seq<char> },
    OpenAIResponses {
        item_id: Option<Seq<char>>,
        output_index: Option<u64>,
        summary_index: u64,
        encrypted_content: Option<Seq<char>>,
    },
}

/// The characters of an optional text.
pub open spec fn optional_text(text: Option<String>) -> Option<Seq<char>> {
    match text {
        Some(t) => Some(t@),
        None => None,
    }
}

/// The characters of an optional text slice.
pub open spec fn optional_str(text: Option<&str>) -> Option<Seq<char>> {
    match text {
        Some(t) => Some(t@),
        None => None,
    }
}

/// Copies an optional text.
pub fn clone_optional(text: &Option<String>) -> (r: Option<String>)
    ensures
        optional_text(r) == optional_text(*text),
{
    match text {
        Some(t) => Some(t.clone()),
        None => None,
    }
}

/// Owns an optional text slice.
pub fn own_optional(text: Option<&str>) -> (r: Option<String>)
    ensures
        optional_text(r) == optional_str(text),
{
    match text {
        Some(t) => Some(t.to_owned()),
        None => None,
    }
}

/// Borrows an optional text.
pub fn borrow_optional(text: &Option<String>) -> (r: Option<&str>)
    ensures
        optional_str(r) == optional_text(*text),
{
    match text {
        Some(t) => Some(t.as_str()),
        None => None,
    }
}

impl View for ThinkingMetadata {
    type V = ThinkingMetadataView;

    open spec fn view(&self) -> ThinkingMetadataView {
        match *self {
            ThinkingMetadata::Anthropic { signature } => ThinkingMetadataView::Anthropic {
                signature: optional_text(signature),
            },
            ThinkingMetadata::AnthropicRedacted { data } => ThinkingMetadataView::AnthropicRedacted {
                data: data@,
            },
            ThinkingMetadata::OpenAIResponses {
                item_id,
                output_index,
                summary_index,
                encrypted_content,
            } => ThinkingMetadataView::OpenAIResponses {
                item_id: optional_text(item_id),
                output_index,
                summary_index,
                encrypted_content: optional_text(encrypted_content),
            },
        }
    }
}

impl ThinkingMetadata {
    /// Metadata of a signed Anthropic block.
    pub fn anthropic(signature: Option<String>) -> (r: ThinkingMetadata)
        ensures
            r@ == (ThinkingMetadataView::Anthropic { signature: optional_text(signature) }),
    {
        ThinkingMetadata::Anthropic { signature }
    }

    /// Metadata of a redacted Anthropic block.
    pub fn anthropic_redacted(data: &str) -> (r: ThinkingMetadata)
        ensures
            r@ == (ThinkingMetadataView::AnthropicRedacted { data: data@ }),
    {
        ThinkingMetadata::AnthropicRedacted { data: data.to_owned() }
    }

    /// Metadata of a reasoning summary.
    pub fn openai_responses(
        item_id: Option<String>,
        output_index: Option<u64>,
        summary_index: u64,
        encrypted_content: Option<String>,
    ) -> (r: ThinkingMetadata)
        ensures
            r@ == (ThinkingMetadataView::OpenAIResponses {
                item_id: optional_text(item_id),
                output_index,
                summary_index,
                encrypted_content: optional_text(encrypted_content),
            }),
    {
        ThinkingMetadata::OpenAIResponses { item_id, output_index, summary_index, encrypted_content }
    }
}

impl Clone for ThinkingMetadata {
    fn clone(&self) -> (r: ThinkingMetadata)
        ensures
            r@ == self@,
    {
        match self {
            ThinkingMetadata::Anthropic { signature } => ThinkingMetadata::Anthropic {
                signature: clone_optional(signature),
            },
            ThinkingMetadata::AnthropicRedacted { data } => ThinkingMetadata::AnthropicRedacted {
                data: data.clone(),
            },
            ThinkingMetadata::OpenAIResponses {
                item_id,
                output_index,
                summary_index,
                encrypted_content,
            } => ThinkingMetadata::OpenAIResponses {
                item_id: clone_optional(item_id),
                output_index: *output_index,
                summary_index: *summary_index,
                encrypted_content: clone_optional(encrypted_content),
            },
        }
    }
}

/// One block of a message.
#[derive(Debug)]
pub enum Content {
    Text { text: String, cache_control: Option<CacheControl> },
    Thinking { text: String, provider: ThinkingProvider, metadata: ThinkingMetadata },
    ToolUse { id: String, name: String, input: Json },
    ToolResult {
        tool_use_id: String,
        content: String,
        is_error: bool,
        cache_control: Option<CacheControl>,
    },
}

/// What a block stands for.
#[verifier::ext_equal]
pub enum ContentView {
    Text { text: Seq<char>, cache_control: Option<CacheControl> },
    Thinking { text: Seq<char>, provider: ThinkingProvider, metadata: ThinkingMetadataView },
    ToolUse { id: Seq<char>, name: Seq<char>, input: JsonView },
    ToolResult {
        tool_use_id: Seq<char>,
        content: Seq<char>,
        is_error: bool,
        cache_control: Option<CacheControl>,
    },
}

impl View for Content {
    type V = ContentView;

    open spec fn view(&self) -> ContentView {
        match *self {
            Content::Text { text, cache_control } => ContentView::Text {
                text: text@,
                cache_control,
            },
            Content::Thinking { text, provider, metadata } => ContentView::Thinking {
                text: text@,
                provider,
                metadata: metadata@,
            },
            Content::ToolUse { id, name, input } => ContentView::ToolUse {
                id: id@,
                name: name@,
                input: input@,
            },
            Content::ToolResult { tool_use_id, content, is_error, cache_control } => {
                ContentView::ToolResult {
                    tool_use_id: tool_use_id@,
                    content: content@,
                    is_error,
                    cache_control,
                }
            },
        }
    }
}

impl ContentView {
    /// A plain text block.
    pub open spec fn plain(text: Seq<char>) -> ContentView {
        ContentView::Text { text, cache_control: None }
    }

    /// A tool's answer.
    pub open spec fn result(
        tool_use_id: Seq<char>,
        content: Seq<char>,
        is_error: bool,
    ) -> ContentView {
        ContentView::ToolResult { tool_use_id, content, is_error, cache_control: None }
    }
}

impl Content {
    /// A plain text block.
    pub fn text(text: &str) -> (r: Content)
        ensures
            r@ == ContentView::plain(text@),
    {
        Content::Text { text: text.to_owned(), cache_control: None }
    }

    /// A text block that ends a cached prefix.
    pub fn text_cached(text: &str) -> (r: Content)
        ensures
            r@ == (ContentView::Text {
                text: text@,
                cache_control: Some(CacheControl { ttl: CacheTtl::FiveMinutes }),
            }),
    {
        Content::Text { text: text.to_owned(), cache_control: Some(CacheControl::ephemeral()) }
    }

    /// A thinking block.
    pub fn thinking(
        text: &str,
        provider: ThinkingProvider,
        metadata: ThinkingMetadata,
    ) -> (r: Content)
        ensures
            r@ == (ContentView::Thinking { text: text@, provider, metadata: metadata@ }),
    {
        Content::Thinking { text: text.to_owned(), provider, metadata }
    }

    /// A tool's answer to the call with the given id.
    pub fn tool_result(tool_use_id: &str, content: &str, is_error: bool) -> (r: Content)
        ensures
            r@ == ContentView::result(tool_use_id@, content@, is_error),
    {
        Content::ToolResult {
            tool_use_id: tool_use_id.to_owned(),
            content: content.to_owned(),
            is_error,
            cache_control: None,
        }
    }
}

impl Clone for Content {
    fn clone(&self) -> (r: Content)
        ensures
            r@ == self@,
    {
        match self {
            Content::Text { text, cache_control } => Content::Text {
                text: text.clone(),
                cache_control: *cache_control,
            },
            Content::Thinking { text, provider, metadata } => Content::Thinking {
                text: text.clone(),
                provider: *provider,
                metadata: metadata.clone(),
            },
            Content::ToolUse { id, name, input } => Content::ToolUse {
                id: id.clone(),
                name: name.clone(),
                input: input.clone(),
            },
            Content::ToolResult { tool_use_id, content, is_error, cache_control } => {
                Content::ToolResult {
                    tool_use_id: tool_use_id.clone(),
                    content: content.clone(),
                    is_error: *is_error,
                    cache_control: *cache_control,
                }
            },
        }
    }
}

/// Copies the blocks of a message.
pub fn clone_contents(blocks: &Vec<Content>) -> (r: Vec<Content>)
    ensures
        views(r@) == views(blocks@),
{
    let mut out: Vec<Content> = Vec::new();
    let mut i: usize = 0;
    while i < blocks.len()
        invariant
            i <= blocks.len(),
            out.len() == i,
            forall|k: int| 0 <= k < i ==> (#[trigger] out@[k])@ == blocks@[k]@,
        decreases blocks.len() - i,
    {
        out.push(blocks[i].clone());
        i = i + 1;
    }
    assert(views(out@) =~= views(blocks@));
    out
}

/// The blocks with the text behind them, unless it is empty.
pub open spec fn with_text_block(content: Seq<ContentView>, text: Seq<char>) -> Seq<ContentView> {
    if text.len() == 0 {
        content
    } else {
        content.push(ContentView::plain(text))
    }
}

/// Makes a block of a text, unless it is empty.
pub fn flush_text(text: &mut String, content: &mut Vec<Content>)
    ensures
        final(text)@ == Seq::<char>::empty(),
        views(final(content)@) == with_text_block(views(old(content)@), old(text)@),
{
    if !text.as_str().is_empty() {
        let block: Content = Content::text(text.as_str());
        proof {
            views_push(content@, block);
        }
        content.push(block);
    }
    *text = String::new();
    assert(text@ =~= Seq::empty());
}

/// One message of a conversation.
#[derive(Debug)]
pub struct Message {
    pub role: Role,
    pub content: Vec<Content>,
}

/// What a message stands for.
#[verifier::ext_equal]
pub struct MessageView {
    pub role: Role,
    pub content: Seq<ContentView>,
}

impl View for Message {
    type V = MessageView;

    open spec fn view(&self) -> MessageView {
        MessageView { role: self.role, content: views(self.content@) }
    }
}

impl Message {
    /// A message of the user.
    pub fn user(content: Vec<Content>) -> (r: Message)
        ensures
            r@ == (MessageView { role: Role::User, content: views(content@) }),
    {
        Message { role: Role::User, content }
    }

    /// A message of the user that is one text.
    pub fn user_text(text: &str) -> (r: Message)
        ensures
            r@ == (MessageView { role: Role::User, content: seq![ContentView::plain(text@)] }),
    {
        let content: Vec<Content> = vec![Content::text(text)];
        assert(views(content@) =~= seq![ContentView::plain(text@)]);
        Message { role: Role::User, content }
    }

    /// A message of the model.
    pub fn assistant(content: Vec<Content>) -> (r: Message)
        ensures
            r@ == (MessageView { role: Role::Assistant, content: views(content@) }),
    {
        Message { role: Role::Assistant, content }
    }
}

impl Clone for Message {
    fn clone(&self) -> (r: Message)
        ensures
            r@ == self@,
    {
        Message { role: self.role, content: clone_contents(&self.content) }
    }
}

/// Copies a conversation.
pub fn clone_messages(messages: &Vec<Message>) -> (r: Vec<Message>)
    ensures
        views(r@) == views(messages@),
{
    let mut out: Vec<Message> = Vec::new();
    let mut i: usize = 0;
    while i < messages.len()
        invariant
            i <= messages.len(),
            out.len() == i,
            forall|k: int| 0 <= k < i ==> (#[trigger] out@[k])@ == messages@[k]@,
        decreases messages.len() - i,
    {
        out.push(messages[i].clone());
        i = i + 1;
    }
    assert(views(out@) =~= views(messages@));
    out
}

} // verus!
