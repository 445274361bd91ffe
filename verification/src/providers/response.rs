//! Answers on the Responses wire: the buffered answer, HTTP failures and the
//! pieces that the event stream shares with them.
use crate::error::{ProviderError, ProviderErrorView};
use crate::json::{field_of, items_of, json_parsed, parsed_view, text_of, u64_of, Json, JsonView};
use crate::message::{
    optional_text, own_optional, optional_str, clone_optional, Content, ContentView, StopReason,
    ThinkingMetadata, ThinkingMetadataView, ThinkingProvider, Usage,
};
use crate::provider::{Response, ResponseView};
use crate::providers::input::{combined_id, combined_tool_use_id};
use crate::text::{
    blank, is_blank, parse_u64, parsed_unsigned, same_text, trim, trimmed, views, views_push,
};
use vstd::prelude::*;
use vstd::string::*;

verus! {

/// A field that is a string.
pub open spec fn text_field(j: JsonView, key: Seq<char>) -> Option<Seq<char>> {
    match field_of(j, key) {
        Some(value) => text_of(value),
        None => None,
    }
}

/// A field that is a string, or the empty text.
pub open spec fn text_field_or_empty(j: JsonView, key: Seq<char>) -> Seq<char> {
    match text_field(j, key) {
        Some(text) => text,
        None => Seq::empty(),
    }
}

/// A field that is an unsigned number.
pub open spec fn u64_field(j: JsonView, key: Seq<char>) -> Option<u64> {
    match field_of(j, key) {
        Some(value) => u64_of(value),
        None => None,
    }
}

/// A field that is an array.
pub open spec fn items_field(j: JsonView, key: Seq<char>) -> Option<Seq<JsonView>> {
    match field_of(j, key) {
        Some(value) => items_of(value),
        None => None,
    }
}

/// A field of a field.
pub open spec fn inner_field(j: JsonView, outer: Seq<char>, inner: Seq<char>) -> Option<JsonView> {
    match field_of(j, outer) {
        Some(value) => field_of(value, inner),
        None => None,
    }
}

/// A field of a field that is a string.
pub open spec fn inner_text(j: JsonView, outer: Seq<char>, inner: Seq<char>) -> Option<Seq<char>> {
    match inner_field(j, outer, inner) {
        Some(value) => text_of(value),
        None => None,
    }
}

/// Reads a field that is a string.
pub fn get_text<'a>(j: &'a Json, key: &str) -> (r: Option<&'a str>)
    ensures
        optional_str(r) == text_field(j@, key@),
{
    match j.get(key) {
        Some(value) => value.as_str(),
        None => None,
    }
}

/// Reads a field that is a string; the empty text stands for all else.
pub fn get_text_or_empty(j: &Json, key: &str) -> (r: String)
    ensures
        r@ == text_field_or_empty(j@, key@),
{
    match get_text(j, key) {
        Some(text) => text.to_owned(),
        None => {
            let empty: String = String::new();
            assert(empty@ =~= Seq::empty());
            empty
        },
    }
}

/// Reads a field that is an unsigned number.
pub fn get_u64(j: &Json, key: &str) -> (r: Option<u64>)
    ensures
        r == u64_field(j@, key@),
{
    match j.get(key) {
        Some(value) => value.as_u64(),
        None => None,
    }
}

/// Reads a field that is an array.
pub fn get_items<'a>(j: &'a Json, key: &str) -> (r: Option<&'a Vec<Json>>)
    ensures
        match r {
            Some(items) => items_field(j@, key@) == Some(views(items@)),
            None => items_field(j@, key@) is None,
        },
{
    match j.get(key) {
        Some(value) => match value.as_array() {
            Some(items) => {
                assert(views(items@) =~= items_field(j@, key@)->0);
                Some(items)
            },
            None => None,
        },
        None => None,
    }
}

/// Reads a field of a field.
pub fn get_inner<'a>(j: &'a Json, outer: &str, inner: &str) -> (r: Option<&'a Json>)
    ensures
        match r {
            Some(value) => inner_field(j@, outer@, inner@) == Some(value@),
            None => inner_field(j@, outer@, inner@) is None,
        },
{
    match j.get(outer) {
        Some(value) => value.get(inner),
        None => None,
    }
}

/// Reads a field of a field that is a string.
pub fn get_inner_text<'a>(j: &'a Json, outer: &str, inner: &str) -> (r: Option<&'a str>)
    ensures
        optional_str(r) == inner_text(j@, outer@, inner@),
{
    match get_inner(j, outer, inner) {
        Some(value) => value.as_str(),
        None => None,
    }
}

/// Whether an optional text is the given one.
pub fn is_text(text: Option<&str>, expected: &str) -> (r: bool)
    ensures
        r == (optional_str(text) == Some(expected@)),
{
    match text {
        Some(t) => same_text(t, expected),
        None => false,
    }
}

/// A function call as its pieces arrive.
#[derive(Debug)]
pub struct PendingToolCall {
    pub call_id: String,
    pub item_id: String,
    pub name: String,
    pub arguments: String,
}

/// What a [`PendingToolCall`] stands for.
#[verifier::ext_equal]
pub struct PendingToolCallView {
    pub call_id: Seq<char>,
    pub item_id: Seq<char>,
    pub name: Seq<char>,
    pub arguments: Seq<char>,
}

impl View for PendingToolCall {
    type V = PendingToolCallView;

    open spec fn view(&self) -> PendingToolCallView {
        PendingToolCallView {
            call_id: self.call_id@,
            item_id: self.item_id@,
            name: self.name@,
            arguments: self.arguments@,
        }
    }
}

/// The call that an output item describes; `None` unless its type is
/// `function_call`.
pub open spec fn item_tool(item: JsonView) -> Option<PendingToolCallView> {
    if text_field(item, "type"@) == Some("function_call"@) {
        Some(
            PendingToolCallView {
                call_id: text_field_or_empty(item, "call_id"@),
                item_id: text_field_or_empty(item, "id"@),
                name: text_field_or_empty(item, "name"@),
                arguments: text_field_or_empty(item, "arguments"@),
            },
        )
    } else {
        None
    }
}

/// Reads the call that an output item describes.
pub fn tool_call_from_item(item: &Json) -> (r: Option<PendingToolCall>)
    ensures
        match r {
            Some(tool) => item_tool(item@) == Some(tool@),
            None => item_tool(item@) is None,
        },
{
    if !is_text(get_text(item, "type"), "function_call") {
        return None;
    }
    Some(
        PendingToolCall {
            call_id: get_text_or_empty(item, "call_id"),
            item_id: get_text_or_empty(item, "id"),
            name: get_text_or_empty(item, "name"),
            arguments: get_text_or_empty(item, "arguments"),
        },
    )
}

/// Reads the call that an event's item describes, where there is an item.
pub fn pending_tool_from_item(item: Option<&Json>) -> (r: Option<PendingToolCall>)
    ensures
        match item {
            Some(value) => match r {
                Some(tool) => item_tool(value@) == Some(tool@),
                None => item_tool(value@) is None,
            },
            None => r is None,
        },
{
    match item {
        Some(value) => tool_call_from_item(value),
        None => None,
    }
}

/// What a tool is handed for what serde_json made of its arguments: the
/// value, or an empty object where the text was no JSON.
pub open spec fn input_or_empty(parsed: Result<JsonView, Seq<char>>) -> JsonView {
    match parsed {
        Ok(value) => value,
        Err(_) => JsonView::Object(Map::empty()),
    }
}

/// What a tool is handed for an arguments text; a blank text stands for an
/// empty object.
pub open spec fn tool_input(arguments: Seq<char>) -> JsonView {
    if blank(arguments) {
        JsonView::Object(Map::empty())
    } else {
        input_or_empty(json_parsed(arguments))
    }
}

/// Falls back to an empty object where the arguments were no JSON.
pub fn arguments_or_empty(parsed: Result<Json, String>) -> (r: Json)
    ensures
        r@ == input_or_empty(parsed_view(parsed)),
{
    match parsed {
        Ok(value) => value,
        Err(_) => Json::empty_object(),
    }
}

/// Reads the arguments of a tool call.
pub fn parse_tool_arguments(arguments: &str) -> (r: Json)
    ensures
        r@ == tool_input(arguments@),
{
    if is_blank(arguments) {
        Json::empty_object()
    } else {
        arguments_or_empty(Json::parse(arguments))
    }
}

/// A complete call as a block of the answer.
pub open spec fn tool_content(tool: PendingToolCallView) -> ContentView {
    ContentView::ToolUse {
        id: combined_id(tool.call_id, tool.item_id),
        name: tool.name,
        input: tool_input(tool.arguments),
    }
}

/// Makes a block of a complete call.
pub fn tool_to_content(tool: PendingToolCall) -> (r: Content)
    ensures
        r@ == tool_content(tool@),
{
    Content::ToolUse {
        id: combined_tool_use_id(tool.call_id.as_str(), tool.item_id.as_str()),
        name: tool.name,
        input: parse_tool_arguments(tool.arguments.as_str()),
    }
}

/// The text of one part of a message item: what was said, or why it was
/// refused.
pub open spec fn part_text(part: JsonView) -> Option<Seq<char>> {
    if text_field(part, "type"@) == Some("output_text"@) {
        text_field(part, "text"@)
    } else if text_field(part, "type"@) == Some("refusal"@) {
        text_field(part, "refusal"@)
    } else {
        None
    }
}

/// One text block for each part that has a text which is not empty.
pub open spec fn part_blocks(parts: Seq<JsonView>) -> Seq<ContentView>
    decreases parts.len(),
{
    if parts.len() == 0 {
        Seq::empty()
    } else {
        let before = part_blocks(parts.drop_last());
        match part_text(parts.last()) {
            Some(text) => if text.len() > 0 {
                before.push(ContentView::plain(text))
            } else {
                before
            },
            None => before,
        }
    }
}

/// One thinking block for each part of a reasoning summary that has a text.
pub open spec fn summary_blocks(
    item: JsonView,
    output_index: Option<u64>,
    parts: Seq<JsonView>,
) -> Seq<ContentView>
    decreases parts.len(),
{
    if parts.len() == 0 {
        Seq::empty()
    } else {
        let before = summary_blocks(item, output_index, parts.drop_last());
        match text_field(parts.last(), "text"@) {
            Some(text) => before.push(
                ContentView::Thinking {
                    text,
                    provider: ThinkingProvider::OpenAIResponses,
                    metadata: ThinkingMetadataView::OpenAIResponses {
                        item_id: text_field(item, "id"@),
                        output_index,
                        summary_index: (parts.len() - 1) as u64,
                        encrypted_content: text_field(item, "encrypted_content"@),
                    },
                },
            ),
            None => before,
        }
    }
}

/// The blocks that one output item adds to the answer.
pub open spec fn item_blocks(item: JsonView, output_index: u64) -> Seq<ContentView> {
    let kind = text_field(item, "type"@);
    if kind == Some("message"@) {
        match items_field(item, "content"@) {
            Some(parts) => part_blocks(parts),
            None => Seq::empty(),
        }
    } else if kind == Some("function_call"@) {
        match item_tool(item) {
            Some(tool) => seq![tool_content(tool)],
            None => Seq::empty(),
        }
    } else if kind == Some("reasoning"@) {
        match items_field(item, "summary"@) {
            Some(parts) => summary_blocks(item, Some(output_index), parts),
            None => Seq::empty(),
        }
    } else {
        Seq::empty()
    }
}

/// The blocks of all output items, in order.
pub open spec fn output_blocks(output: Seq<JsonView>) -> Seq<ContentView>
    decreases output.len(),
{
    if output.len() == 0 {
        Seq::empty()
    } else {
        output_blocks(output.drop_last()) + item_blocks(
            output.last(),
            (output.len() - 1) as u64,
        )
    }
}

/// The blocks of an answer: those of its output items, or else its
/// `output_text`.
pub open spec fn answer_blocks(value: JsonView) -> Seq<ContentView> {
    let blocks = match items_field(value, "output"@) {
        Some(output) => output_blocks(output),
        None => Seq::empty(),
    };
    if blocks.len() > 0 {
        blocks
    } else {
        match text_field(value, "output_text"@) {
            Some(text) => if text.len() > 0 {
                seq![ContentView::plain(text)]
            } else {
                Seq::empty()
            },
            None => Seq::empty(),
        }
    }
}

/// Whether any block is a tool call.
pub open spec fn has_tool_use(blocks: Seq<ContentView>) -> bool {
    exists|i: int| 0 <= i < blocks.len() && (#[trigger] blocks[i]) is ToolUse
}

/// Why an answer ended: a tool call goes before everything else, then an
/// answer cut off at its token limit.
pub open spec fn stop_reason_of(
    status: Option<Seq<char>>,
    incomplete_reason: Option<Seq<char>>,
    saw_tool_use: bool,
) -> StopReason {
    if saw_tool_use {
        StopReason::ToolUse
    } else if status == Some("incomplete"@) && incomplete_reason == Some("max_output_tokens"@) {
        StopReason::MaxTokens
    } else {
        StopReason::EndTurn
    }
}

/// A count as the runtime keeps it: its low 32 bits.
pub open spec fn token_count(n: Option<u64>) -> u32 {
    match n {
        Some(count) => (count % 0x1_0000_0000) as u32,
        None => 0,
    }
}

/// The token counts that an answer reports.
pub open spec fn usage_of(value: Option<JsonView>) -> Usage {
    match value {
        Some(usage) => Usage {
            input_tokens: token_count(u64_field(usage, "input_tokens"@)),
            output_tokens: token_count(u64_field(usage, "output_tokens"@)),
            cache_creation_input_tokens: 0,
            cache_read_input_tokens: token_count(
                match inner_field(usage, "input_tokens_details"@, "cached_tokens"@) {
                    Some(count) => u64_of(count),
                    None => None,
                },
            ),
        },
        None => Usage::zero(),
    }
}

/// The answer that a response body describes.
pub open spec fn answer_of(value: JsonView) -> ResponseView {
    let content = answer_blocks(value);
    ResponseView {
        content,
        stop_reason: stop_reason_of(
            text_field(value, "status"@),
            inner_text(value, "incomplete_details"@, "reason"@),
            has_tool_use(content),
        ),
        usage: usage_of(field_of(value, "usage"@)),
    }
}

fn convert_message_item(item: &Json, content: &mut Vec<Content>)
    ensures
        views(final(content)@) == views(old(content)@) + match items_field(item@, "content"@) {
            Some(parts) => part_blocks(parts),
            None => Seq::empty(),
        },
{
    let ghost start = views(content@);
    match get_items(item, "content") {
        Some(parts) => {
            let ghost all = views(parts@);
            let mut i: usize = 0;
            assert(views(content@) =~= start + part_blocks(all.take(0)));
            while i < parts.len()
                invariant
                    i <= parts.len(),
                    all == views(parts@),
                    views(content@) == start + part_blocks(all.take(i as int)),
                decreases parts.len() - i,
            {
                let part: &Json = &parts[i];
                proof {
                    assert(all.take(i + 1).drop_last() =~= all.take(i as int));
                    assert(all.take(i + 1).last() == part@);
                }
                let kind: Option<&str> = get_text(part, "type");
                let text: Option<&str> = if is_text(kind, "output_text") {
                    get_text(part, "text")
                } else if is_text(kind, "refusal") {
                    get_text(part, "refusal")
                } else {
                    None
                };
                if let Some(t) = text {
                    if !t.is_empty() {
                        let block: Content = Content::text(t);
                        proof {
                            views_push(content@, block);
                        }
                        content.push(block);
                    }
                }
                assert(views(content@) =~= start + part_blocks(all.take(i + 1)));
                i = i + 1;
            }
            assert(all.take(i as int) =~= all);
        },
        None => {
            assert(views(content@) =~= start + Seq::<ContentView>::empty());
        },
    }
}

fn convert_reasoning_item(item: &Json, output_index: Option<u64>, content: &mut Vec<Content>)
    ensures
        views(final(content)@) == views(old(content)@) + match items_field(item@, "summary"@) {
            Some(parts) => summary_blocks(item@, output_index, parts),
            None => Seq::empty(),
        },
{
    let ghost start = views(content@);
    let item_id: Option<String> = own_optional(get_text(item, "id"));
    let encrypted_content: Option<String> = own_optional(get_text(item, "encrypted_content"));
    match get_items(item, "summary") {
        Some(parts) => {
            let ghost all = views(parts@);
            let mut i: usize = 0;
            assert(views(content@) =~= start + summary_blocks(item@, output_index, all.take(0)));
            while i < parts.len()
                invariant
                    i <= parts.len(),
                    all == views(parts@),
                    optional_text(item_id) == text_field(item@, "id"@),
                    optional_text(encrypted_content) == text_field(item@, "encrypted_content"@),
                    views(content@) == start + summary_blocks(
                        item@,
                        output_index,
                        all.take(i as int),
                    ),
                decreases parts.len() - i,
            {
                let part: &Json = &parts[i];
                proof {
                    assert(all.take(i + 1).drop_last() =~= all.take(i as int));
                    assert(all.take(i + 1).last() == part@);
                }
                if let Some(text) = get_text(part, "text") {
                    let block: Content = Content::thinking(
                        text,
                        ThinkingProvider::OpenAIResponses,
                        ThinkingMetadata::openai_responses(
                            clone_optional(&item_id),
                            output_index,
                            i as u64,
                            clone_optional(&encrypted_content),
                        ),
                    );
                    proof {
                        views_push(content@, block);
                    }
                    content.push(block);
                }
                assert(views(content@) =~= start + summary_blocks(
                    item@,
                    output_index,
                    all.take(i + 1),
                ));
                i = i + 1;
            }
            assert(all.take(i as int) =~= all);
        },
        None => {
            assert(views(content@) =~= start + Seq::<ContentView>::empty());
        },
    }
}

fn convert_output_item(item: &Json, output_index: usize, content: &mut Vec<Content>)
    ensures
        views(final(content)@) == views(old(content)@) + item_blocks(item@, output_index as u64),
{
    let ghost start = views(content@);
    let kind: Option<&str> = get_text(item, "type");
    if is_text(kind, "message") {
        convert_message_item(item, content);
    } else if is_text(kind, "function_call") {
        if let Some(tool) = tool_call_from_item(item) {
            let block: Content = tool_to_content(tool);
            proof {
                views_push(content@, block);
            }
            content.push(block);
        }
        assert(views(content@) =~= start + item_blocks(item@, output_index as u64));
    } else if is_text(kind, "reasoning") {
        convert_reasoning_item(item, Some(output_index as u64), content);
    } else {
        assert(views(content@) =~= start + Seq::<ContentView>::empty());
    }
}

/// Works out why an answer ended.
pub fn responses_stop_reason(
    status: Option<&str>,
    incomplete_reason: Option<&str>,
    saw_tool_use: bool,
) -> (r: StopReason)
    ensures
        r == stop_reason_of(optional_str(status), optional_str(incomplete_reason), saw_tool_use),
{
    if saw_tool_use {
        StopReason::ToolUse
    } else if is_text(status, "incomplete") && is_text(incomplete_reason, "max_output_tokens") {
        StopReason::MaxTokens
    } else {
        StopReason::EndTurn
    }
}

/// Works out why a buffered answer ended.
pub fn response_stop_reason(value: &Json, has_tool_use: bool) -> (r: StopReason)
    ensures
        r == stop_reason_of(
            text_field(value@, "status"@),
            inner_text(value@, "incomplete_details"@, "reason"@),
            has_tool_use,
        ),
{
    responses_stop_reason(
        get_text(value, "status"),
        get_inner_text(value, "incomplete_details", "reason"),
        has_tool_use,
    )
}

fn low_bits(n: Option<u64>) -> (r: u32)
    ensures
        r == token_count(n),
{
    match n {
        Some(count) => (count % 0x1_0000_0000) as u32,
        None => 0,
    }
}

/// Reads the token counts of an answer.
pub fn usage_from_response(value: Option<&Json>) -> (r: Usage)
    ensures
        r == usage_of(
            match value {
                Some(usage) => Some(usage@),
                None => None,
            },
        ),
{
    match value {
        Some(usage) => {
            let cached: Option<u64> = match get_inner(
                usage,
                "input_tokens_details",
                "cached_tokens",
            ) {
                Some(count) => count.as_u64(),
                None => None,
            };
            Usage {
                input_tokens: low_bits(get_u64(usage, "input_tokens")),
                output_tokens: low_bits(get_u64(usage, "output_tokens")),
                cache_creation_input_tokens: 0,
                cache_read_input_tokens: low_bits(cached),
            }
        },
        None => Usage::default(),
    }
}

/// Decodes a buffered answer.
pub fn convert_response_value(value: &Json) -> (r: Response)
    ensures
        r@ == answer_of(value@),
{
    let mut content: Vec<Content> = Vec::new();
    assert(views(content@) =~= Seq::<ContentView>::empty());
    if let Some(output) = get_items(value, "output") {
        let ghost all = views(output@);
        let mut i: usize = 0;
        assert(views(content@) =~= output_blocks(all.take(0)));
        while i < output.len()
            invariant
                i <= output.len(),
                all == views(output@),
                views(content@) == output_blocks(all.take(i as int)),
            decreases output.len() - i,
        {
            proof {
                assert(all.take(i + 1).drop_last() =~= all.take(i as int));
                assert(all.take(i + 1).last() == output@[i as int]@);
            }
            convert_output_item(&output[i], i, &mut content);
            i = i + 1;
        }
        assert(all.take(i as int) =~= all);
    }
    if content.len() == 0 {
        if let Some(text) = get_text(value, "output_text") {
            if !text.is_empty() {
                content.push(Content::text(text));
            }
        }
    }
    assert(views(content@) =~= answer_blocks(value@));
    let mut found: bool = false;
    let mut k: usize = 0;
    while k < content.len()
        invariant
            k <= content.len(),
            found == exists|i: int| 0 <= i < k && (#[trigger] views(content@)[i]) is ToolUse,
        decreases content.len() - k,
    {
        let is_call: bool = matches!(&content[k], Content::ToolUse { .. });
        assert(is_call == views(content@)[k as int] is ToolUse);
        found = found || is_call;
        k = k + 1;
    }
    Response {
        stop_reason: response_stop_reason(value, found),
        usage: usage_from_response(value.get("usage")),
        content,
    }
}

/// The failure that an HTTP status stands for.
pub open spec fn error_of_status(
    status: u16,
    message: Seq<char>,
    retry_after_ms: Option<u64>,
) -> ProviderErrorView {
    if status == 429 {
        ProviderErrorView::RateLimit { retry_after_ms }
    } else if status == 503 {
        ProviderErrorView::Overloaded { retry_after_ms }
    } else {
        ProviderErrorView::Api { status, message, retryable: 500 <= status < 600 }
    }
}

/// Sorts an HTTP failure: a rate limit, an overload, or an error that may be
/// tried again exactly when the server is at fault.
pub fn classify_error(status: u16, message: String, retry_after_ms: Option<u64>) -> (r:
    ProviderError)
    ensures
        r@ == error_of_status(status, message@, retry_after_ms),
{
    match status {
        429 => ProviderError::RateLimit { retry_after_ms },
        503 => ProviderError::Overloaded { retry_after_ms },
        s => ProviderError::Api { status: s, message, retryable: 500 <= s && s < 600 },
    }
}

/// The number of seconds that a `Retry-After` header gives, where it is a
/// number that fits.
pub open spec fn retry_seconds(header: Option<Seq<char>>) -> Option<u64> {
    match header {
        Some(raw) => match parsed_unsigned(trimmed(raw)) {
            Some(seconds) => if seconds <= u64::MAX {
                Some(seconds as u64)
            } else {
                None
            },
            None => None,
        },
        None => None,
    }
}

/// Reads a `Retry-After` header in seconds.
pub fn parse_retry_seconds(header: Option<&str>) -> (r: Option<u64>)
    ensures
        r == retry_seconds(optional_str(header)),
{
    match header {
        Some(raw) => parse_u64(trim(raw).as_str()),
        None => None,
    }
}

/// Reads a `Retry-After` header in milliseconds.
pub fn parse_retry_after(header: Option<&str>) -> (r: Option<u64>)
    requires
        match retry_seconds(optional_str(header)) {
            Some(seconds) => seconds * 1_000 <= u64::MAX,
            None => true,
        },
    ensures
        r == match retry_seconds(optional_str(header)) {
            Some(seconds) => Some((seconds * 1_000) as u64),
            None => None,
        },
{
    match parse_retry_seconds(header) {
        Some(seconds) => Some(seconds * 1_000),
        None => None,
    }
}

/// The failure that a response body reports in its `error` field.
pub open spec fn body_error(value: JsonView) -> Option<ProviderErrorView> {
    match field_of(value, "error"@) {
        Some(error) => if error is Null {
            None
        } else {
            Some(
                ProviderErrorView::Api {
                    status: 500,
                    message: match text_field(error, "message"@) {
                        Some(message) => message,
                        None => "OpenAI Responses request failed"@,
                    },
                    retryable: false,
                },
            )
        },
        None => None,
    }
}

/// Finds the failure that a response body reports.
pub fn response_error(value: &Json) -> (r: Option<ProviderError>)
    ensures
        match r {
            Some(error) => body_error(value@) == Some(error@),
            None => body_error(value@) is None,
        },
{
    match value.get("error") {
        Some(error) => {
            if matches!(error, Json::Null) {
                return None;
            }
            let message: String = match get_text(error, "message") {
                Some(text) => text.to_owned(),
                None => "OpenAI Responses request failed".to_owned(),
            };
            Some(ProviderError::Api { status: 500, message, retryable: false })
        },
        None => None,
    }
}

/// What a buffered answer comes to, given what serde_json made of its body.
pub open spec fn answer_of_parsed(parsed: Result<JsonView, Seq<char>>) -> Result<
    ResponseView,
    ProviderErrorView,
> {
    match parsed {
        Ok(value) => match body_error(value) {
            Some(error) => Err(error),
            None => Ok(answer_of(value)),
        },
        Err(message) => Err(ProviderErrorView::Decode(message)),
    }
}

/// What decoding an answer gave.
pub open spec fn decoded_view(decoded: Result<Response, ProviderError>) -> Result<
    ResponseView,
    ProviderErrorView,
> {
    match decoded {
        Ok(response) => Ok(response@),
        Err(error) => Err(error@),
    }
}

/// Takes what serde_json made of an answer's body: a failure that the body
/// reports goes before the answer.
pub fn decode_parsed(parsed: Result<Json, String>) -> (r: Result<Response, ProviderError>)
    ensures
        decoded_view(r) == answer_of_parsed(parsed_view(parsed)),
{
    match parsed {
        Ok(value) => match response_error(&value) {
            Some(error) => Err(error),
            None => Ok(convert_response_value(&value)),
        },
        Err(message) => Err(ProviderError::Decode(message)),
    }
}

/// Decodes the body of a buffered answer.
pub fn decode_body(body: &str) -> (r: Result<Response, ProviderError>)
    ensures
        decoded_view(r) == answer_of_parsed(json_parsed(body@)),
{
    decode_parsed(Json::parse(body))
}

/// Whether an HTTP status means a failure.
pub fn is_failure(status: u16) -> (r: bool)
    ensures
        r == (status >= 400),
{
    status >= 400
}

/// The failure that an error event reports.
pub open spec fn event_error(value: JsonView) -> ProviderErrorView {
    let source = match field_of(value, "response"@) {
        Some(response) => inner_field(response, "error"@, "message"@),
        None => None,
    };
    let message = match source {
        Some(found) => Some(found),
        None => match inner_field(value, "error"@, "message"@) {
            Some(found) => Some(found),
            None => field_of(value, "message"@),
        },
    };
    let text = match message {
        Some(found) => text_of(found),
        None => None,
    };
    ProviderErrorView::Api {
        status: 500,
        message: match text {
            Some(t) => t,
            None => "OpenAI Responses stream failed"@,
        },
        retryable: false,
    }
}

/// Reads the failure that an error event reports.
pub fn stream_error(value: &Json) -> (r: ProviderError)
    ensures
        r@ == event_error(value@),
{
    let nested: Option<&Json> = match value.get("response") {
        Some(response) => get_inner(response, "error", "message"),
        None => None,
    };
    let found: Option<&Json> = match nested {
        Some(message) => Some(message),
        None => match get_inner(value, "error", "message") {
            Some(message) => Some(message),
            None => value.get("message"),
        },
    };
    let text: Option<&str> = match found {
        Some(message) => message.as_str(),
        None => None,
    };
    let message: String = match text {
        Some(t) => t.to_owned(),
        None => "OpenAI Responses stream failed".to_owned(),
    };
    ProviderError::Api { status: 500, message, retryable: false }
}

} // verus!
