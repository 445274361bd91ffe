//! The Responses event stream: from server-sent events to [`StreamEvent`]s.
use crate::error::{ProviderError, ProviderErrorView};
use crate::json::{field_of, json_parsed, parsed_view, text_of, Json, JsonView};
use crate::message::{
    clone_optional, optional_str, optional_text, own_optional, ThinkingMetadata,
    ThinkingMetadataView, ThinkingProvider, Usage,
};
use crate::providers::input::{combined_id, combined_tool_use_id};
use crate::providers::response::{
    event_error, get_inner, get_inner_text, get_items, get_text, get_text_or_empty, get_u64,
    inner_field, inner_text, is_text, item_tool, items_field, parse_tool_arguments,
    pending_tool_from_item, responses_stop_reason, stop_reason_of, stream_error, text_field,
    text_field_or_empty, tool_input, u64_field, usage_from_response, usage_of, PendingToolCall,
    PendingToolCallView,
};
use crate::stream::{item_view, items_view, StreamEvent, StreamEventView};
use crate::text::{same_text, text_at_most, text_le, trim, trimmed, views, views_push};
use std::collections::VecDeque;
use vstd::prelude::*;
use vstd::string::*;

verus! {

/// One item of the event stream, as the contracts see it.
pub type ItemView = Result<StreamEventView, ProviderErrorView>;

/// A part of a reasoning summary as its pieces arrive.
#[derive(Debug)]
pub struct PendingReasoning {
    pub item_id: String,
    pub output_index: Option<u64>,
    pub summary_index: u64,
    pub text: String,
    pub encrypted_content: Option<String>,
    pub emitted: bool,
}

/// What a [`PendingReasoning`] stands for.
#[verifier::ext_equal]
pub struct ReasoningView {
    pub item_id: Seq<char>,
    pub output_index: Option<u64>,
    pub summary_index: u64,
    pub text: Seq<char>,
    pub encrypted_content: Option<Seq<char>>,
    pub emitted: bool,
}

impl View for PendingReasoning {
    type V = ReasoningView;

    open spec fn view(&self) -> ReasoningView {
        ReasoningView {
            item_id: self.item_id@,
            output_index: self.output_index,
            summary_index: self.summary_index,
            text: self.text@,
            encrypted_content: optional_text(self.encrypted_content),
            emitted: self.emitted,
        }
    }
}

/// Where a part stands among the parts: by item, then by its place in the
/// summary.
pub open spec fn part_before(r: ReasoningView, item_id: Seq<char>, summary_index: u64) -> bool {
    if r.item_id == item_id {
        r.summary_index < summary_index
    } else {
        text_le(r.item_id, item_id)
    }
}

/// The first position whose part is not before the given key.
pub open spec fn part_slot(
    parts: Seq<ReasoningView>,
    item_id: Seq<char>,
    summary_index: u64,
) -> int
    decreases parts.len(),
{
    if parts.len() == 0 {
        0
    } else if part_before(parts[0], item_id, summary_index) {
        1 + part_slot(parts.drop_first(), item_id, summary_index)
    } else {
        0
    }
}

/// Whether a part is known by the given key.
pub open spec fn part_at(
    parts: Seq<ReasoningView>,
    slot: int,
    item_id: Seq<char>,
    summary_index: u64,
) -> bool {
    0 <= slot < parts.len() && parts[slot].item_id == item_id && parts[slot].summary_index
        == summary_index
}

/// The parts with an entry for the given key, a fresh one where there was
/// none.
pub open spec fn with_part(
    parts: Seq<ReasoningView>,
    item_id: Seq<char>,
    summary_index: u64,
    output_index: Option<u64>,
) -> Seq<ReasoningView> {
    let slot = part_slot(parts, item_id, summary_index);
    if part_at(parts, slot, item_id, summary_index) {
        parts
    } else {
        parts.insert(
            slot,
            ReasoningView {
                item_id,
                output_index,
                summary_index,
                text: Seq::empty(),
                encrypted_content: None,
                emitted: false,
            },
        )
    }
}

/// What the parser remembers between events.
#[verifier::ext_equal]
pub struct ParserView {
    pub usage: Usage,
    /// Calls under way, in the order in which they were first heard of.
    pub tools: Seq<PendingToolCallView>,
    /// The ids of the calls that were handed out.
    pub emitted_tools: Seq<Seq<char>>,
    /// Parts of reasoning summaries, by item and place.
    pub reasoning: Seq<ReasoningView>,
    pub saw_tool_use: bool,
    pub emitted_terminal: bool,
}

impl ParserView {
    /// The parser before the first event.
    pub open spec fn fresh() -> ParserView {
        ParserView {
            usage: Usage::zero(),
            tools: Seq::empty(),
            emitted_tools: Seq::empty(),
            reasoning: Seq::empty(),
            saw_tool_use: false,
            emitted_terminal: false,
        }
    }
}

/// The position of the call under way with the given item id.
pub open spec fn tool_slot(tools: Seq<PendingToolCallView>, item_id: Seq<char>) -> Option<int>
    decreases tools.len(),
{
    if tools.len() == 0 {
        None
    } else if tools[0].item_id == item_id {
        Some(0)
    } else {
        match tool_slot(tools.drop_first(), item_id) {
            Some(i) => Some(i + 1),
            None => None,
        }
    }
}

/// The calls with one call put in the place of the one with its item id, or
/// behind the others.
pub open spec fn with_tool(
    tools: Seq<PendingToolCallView>,
    tool: PendingToolCallView,
) -> Seq<PendingToolCallView> {
    match tool_slot(tools, tool.item_id) {
        Some(i) => tools.update(i, tool),
        None => tools.push(tool),
    }
}

/// The call under way with the given item id, or an empty one.
pub open spec fn tool_or_fresh(
    tools: Seq<PendingToolCallView>,
    item_id: Seq<char>,
) -> PendingToolCallView {
    match tool_slot(tools, item_id) {
        Some(i) => tools[i],
        None => PendingToolCallView {
            call_id: Seq::empty(),
            item_id,
            name: Seq::empty(),
            arguments: Seq::empty(),
        },
    }
}

/// More text of the answer, unless it is empty.
pub open spec fn text_delta_items(v: JsonView) -> Seq<ItemView> {
    match text_field(v, "delta"@) {
        Some(delta) => if delta.len() > 0 {
            seq![Ok(StreamEventView::ContentDelta(delta))]
        } else {
            Seq::empty()
        },
        None => Seq::empty(),
    }
}

/// The summary part that an event speaks of.
pub open spec fn event_key(v: JsonView) -> Option<(Seq<char>, u64)> {
    match (text_field(v, "item_id"@), u64_field(v, "summary_index"@)) {
        (Some(item_id), Some(summary_index)) => Some((item_id, summary_index)),
        _ => None,
    }
}

/// After more text of a reasoning summary.
pub open spec fn after_reasoning_delta(p: ParserView, v: JsonView) -> (ParserView, Seq<ItemView>) {
    match (event_key(v), text_field(v, "delta"@)) {
        (Some((item_id, summary_index)), Some(delta)) => {
            let parts = with_part(
                p.reasoning,
                item_id,
                summary_index,
                u64_field(v, "output_index"@),
            );
            let slot = part_slot(p.reasoning, item_id, summary_index);
            let part = ReasoningView { text: parts[slot].text + delta, ..parts[slot] };
            (
                ParserView { reasoning: parts.update(slot, part), ..p },
                if delta.len() > 0 {
                    seq![Ok(StreamEventView::ThinkingDelta { text: delta })]
                } else {
                    Seq::empty()
                },
            )
        },
        _ => (p, Seq::empty()),
    }
}

/// The full text that ends a summary part.
pub open spec fn done_text(v: JsonView) -> Seq<char> {
    let found = match field_of(v, "text"@) {
        Some(text) => Some(text),
        None => inner_field(v, "part"@, "text"@),
    };
    match found {
        Some(text) => match text_of(text) {
            Some(t) => t,
            None => Seq::empty(),
        },
        None => Seq::empty(),
    }
}

/// After the end of a summary part: its full text, where there is one,
/// replaces what was gathered.
pub open spec fn after_reasoning_done(p: ParserView, v: JsonView) -> ParserView {
    match event_key(v) {
        Some((item_id, summary_index)) => {
            let parts = with_part(
                p.reasoning,
                item_id,
                summary_index,
                u64_field(v, "output_index"@),
            );
            let slot = part_slot(p.reasoning, item_id, summary_index);
            let text = done_text(v);
            let part = if text.len() > 0 {
                ReasoningView { text, ..parts[slot] }
            } else {
                parts[slot]
            };
            ParserView { reasoning: parts.update(slot, part), ..p }
        },
        None => p,
    }
}

/// After the announcement of an output item: a function call is under way.
pub open spec fn after_item_added(p: ParserView, v: JsonView) -> ParserView {
    match field_of(v, "item"@) {
        Some(item) => match item_tool(item) {
            Some(tool) => ParserView { tools: with_tool(p.tools, tool), ..p },
            None => p,
        },
        None => p,
    }
}

/// After more text of a call's arguments.
pub open spec fn after_arguments_delta(p: ParserView, v: JsonView) -> ParserView {
    match (text_field(v, "item_id"@), text_field(v, "delta"@)) {
        (Some(item_id), Some(delta)) => {
            let tool = tool_or_fresh(p.tools, item_id);
            ParserView {
                tools: with_tool(
                    p.tools,
                    PendingToolCallView { arguments: tool.arguments + delta, ..tool },
                ),
                ..p
            }
        },
        _ => p,
    }
}

/// A text that replaces another where it is there.
pub open spec fn replaced(old_text: Seq<char>, new_text: Option<Seq<char>>) -> Seq<char> {
    match new_text {
        Some(text) => text,
        None => old_text,
    }
}

/// After the end of a call's arguments.
pub open spec fn after_arguments_done(p: ParserView, v: JsonView) -> ParserView {
    match text_field(v, "item_id"@) {
        Some(item_id) => {
            let tool = tool_or_fresh(p.tools, item_id);
            ParserView {
                tools: with_tool(
                    p.tools,
                    PendingToolCallView {
                        arguments: replaced(tool.arguments, text_field(v, "arguments"@)),
                        name: replaced(tool.name, text_field(v, "name"@)),
                        ..tool
                    },
                ),
                ..p
            }
        },
        None => p,
    }
}

/// A complete call as an event.
pub open spec fn tool_event(tool: PendingToolCallView) -> ItemView {
    Ok(
        StreamEventView::ToolUse {
            id: combined_id(tool.call_id, tool.item_id),
            name: tool.name,
            input: tool_input(tool.arguments),
        },
    )
}

/// The ids handed out, with one more unless it is empty.
pub open spec fn with_emitted(emitted: Seq<Seq<char>>, item_id: Seq<char>) -> Seq<Seq<char>> {
    if item_id.len() > 0 {
        emitted.push(item_id)
    } else {
        emitted
    }
}

/// Whether the call with an id was handed out before.
pub open spec fn already_emitted(emitted: Seq<Seq<char>>, item_id: Seq<char>) -> bool {
    item_id.len() > 0 && emitted.contains(item_id)
}

/// The calls without the one under way with the given id.
pub open spec fn without_tool(tools: Seq<PendingToolCallView>, item_id: Seq<char>) -> Seq<
    PendingToolCallView,
> {
    if item_id.len() == 0 {
        tools
    } else {
        match tool_slot(tools, item_id) {
            Some(i) => tools.remove(i),
            None => tools,
        }
    }
}

/// What is known of a call when its item is done: what was gathered, with
/// what the item says put in its place.
pub open spec fn completed_tool(
    tools: Seq<PendingToolCallView>,
    item: JsonView,
) -> PendingToolCallView {
    let item_id = text_field_or_empty(item, "id"@);
    let gathered = if item_id.len() == 0 {
        PendingToolCallView {
            call_id: Seq::empty(),
            item_id,
            name: Seq::empty(),
            arguments: Seq::empty(),
        }
    } else {
        tool_or_fresh(tools, item_id)
    };
    PendingToolCallView {
        call_id: replaced(gathered.call_id, text_field(item, "call_id"@)),
        item_id,
        name: replaced(gathered.name, text_field(item, "name"@)),
        arguments: replaced(gathered.arguments, text_field(item, "arguments"@)),
    }
}

/// After a function call's item is done: the call is handed out, unless it
/// was before or nothing is known of it.
pub open spec fn after_call_done(p: ParserView, item: JsonView) -> (ParserView, Seq<ItemView>) {
    let item_id = text_field_or_empty(item, "id"@);
    if already_emitted(p.emitted_tools, item_id) {
        (p, Seq::empty())
    } else {
        let tool = completed_tool(p.tools, item);
        let taken = ParserView { tools: without_tool(p.tools, item_id), ..p };
        if tool.call_id.len() == 0 && tool.name.len() == 0 {
            (taken, Seq::empty())
        } else {
            (
                ParserView {
                    emitted_tools: with_emitted(p.emitted_tools, item_id),
                    saw_tool_use: true,
                    ..taken
                },
                seq![tool_event(tool)],
            )
        }
    }
}

/// A finished summary part as an event.
pub open spec fn reasoning_event(r: ReasoningView) -> ItemView {
    Ok(
        StreamEventView::ThinkingBlock {
            text: r.text,
            provider: ThinkingProvider::OpenAIResponses,
            metadata: ThinkingMetadataView::OpenAIResponses {
                item_id: if r.item_id.len() > 0 {
                    Some(r.item_id)
                } else {
                    None
                },
                output_index: r.output_index,
                summary_index: r.summary_index,
                encrypted_content: r.encrypted_content,
            },
        },
    )
}

/// Whether a part belongs to a selection: one item, or all.
pub open spec fn selected(r: ReasoningView, item_id: Option<Seq<char>>) -> bool {
    match item_id {
        Some(id) => r.item_id == id,
        None => true,
    }
}

/// The selected parts that were not handed out before, as events in order.
pub open spec fn reasoning_events(
    parts: Seq<ReasoningView>,
    item_id: Option<Seq<char>>,
) -> Seq<ItemView>
    decreases parts.len(),
{
    if parts.len() == 0 {
        Seq::empty()
    } else {
        let before = reasoning_events(parts.drop_last(), item_id);
        if selected(parts.last(), item_id) && !parts.last().emitted {
            before.push(reasoning_event(parts.last()))
        } else {
            before
        }
    }
}

/// The parts with the selected ones marked as handed out.
pub open spec fn marked(parts: Seq<ReasoningView>, item_id: Option<Seq<char>>) -> Seq<
    ReasoningView,
> {
    Seq::new(
        parts.len(),
        |i: int|
            if selected(parts[i], item_id) {
                ReasoningView { emitted: true, ..parts[i] }
            } else {
                parts[i]
            },
    )
}

/// The first of two optional numbers that is there.
pub open spec fn first_of(a: Option<u64>, b: Option<u64>) -> Option<u64> {
    match a {
        Some(n) => Some(n),
        None => b,
    }
}

/// The parts after the summary of a reasoning item was read.
pub open spec fn with_summary(
    parts: Seq<ReasoningView>,
    item: JsonView,
    output_index: Option<u64>,
    summary: Seq<JsonView>,
) -> Seq<ReasoningView>
    decreases summary.len(),
{
    if summary.len() == 0 {
        parts
    } else {
        let before = with_summary(parts, item, output_index, summary.drop_last());
        let item_id = text_field_or_empty(item, "id"@);
        let summary_index = (summary.len() - 1) as u64;
        let entered = with_part(before, item_id, summary_index, output_index);
        let slot = part_slot(before, item_id, summary_index);
        entered.update(
            slot,
            ReasoningView {
                text: replaced(entered[slot].text, text_field(summary.last(), "text"@)),
                encrypted_content: text_field(item, "encrypted_content"@),
                output_index: first_of(entered[slot].output_index, output_index),
                ..entered[slot]
            },
        )
    }
}

/// After a complete reasoning item: its summary is read and handed out.
pub open spec fn after_reasoning_item(
    parts: Seq<ReasoningView>,
    item: JsonView,
    output_index: Option<u64>,
) -> (Seq<ReasoningView>, Seq<ItemView>) {
    let read = match items_field(item, "summary"@) {
        Some(summary) => with_summary(parts, item, output_index, summary),
        None => parts,
    };
    let item_id = Some(text_field_or_empty(item, "id"@));
    (marked(read, item_id), reasoning_events(read, item_id))
}

/// After a finished output item.
pub open spec fn after_item_done(p: ParserView, v: JsonView) -> (ParserView, Seq<ItemView>) {
    let kind = inner_text(v, "item"@, "type"@);
    match field_of(v, "item"@) {
        Some(item) => if kind == Some("function_call"@) {
            after_call_done(p, item)
        } else if kind == Some("reasoning"@) {
            let (parts, events) = after_reasoning_item(
                p.reasoning,
                item,
                u64_field(v, "output_index"@),
            );
            (ParserView { reasoning: parts, ..p }, events)
        } else {
            (p, Seq::empty())
        },
        None => (p, Seq::empty()),
    }
}

/// After the reasoning items of a complete answer were read, in order.
pub open spec fn after_output(parts: Seq<ReasoningView>, output: Seq<JsonView>) -> (
    Seq<ReasoningView>,
    Seq<ItemView>,
)
    decreases output.len(),
{
    if output.len() == 0 {
        (parts, Seq::empty())
    } else {
        let (before, events) = after_output(parts, output.drop_last());
        if text_field(output.last(), "type"@) == Some("reasoning"@) {
            let (read, more) = after_reasoning_item(
                before,
                output.last(),
                Some((output.len() - 1) as u64),
            );
            (read, events + more)
        } else {
            (before, events)
        }
    }
}

/// The calls still under way handed out in order, but for those handed out
/// before: the ids handed out, and the events.
pub open spec fn drained(tools: Seq<PendingToolCallView>, emitted: Seq<Seq<char>>) -> (
    Seq<Seq<char>>,
    Seq<ItemView>,
)
    decreases tools.len(),
{
    if tools.len() == 0 {
        (emitted, Seq::empty())
    } else {
        let (ids, events) = drained(tools.drop_last(), emitted);
        let tool = tools.last();
        if already_emitted(ids, tool.item_id) {
            (ids, events)
        } else {
            (with_emitted(ids, tool.item_id), events.push(tool_event(tool)))
        }
    }
}

/// The end of the stream: everything still pending, then the token counts,
/// the reason and the end mark. Nothing where the end was reported before.
pub open spec fn after_end(
    p: ParserView,
    status: Option<Seq<char>>,
    incomplete_reason: Option<Seq<char>>,
) -> (ParserView, Seq<ItemView>) {
    if p.emitted_terminal {
        (p, Seq::empty())
    } else {
        let thoughts = reasoning_events(p.reasoning, None);
        let (ids, calls) = drained(p.tools, p.emitted_tools);
        let saw_tool_use = p.saw_tool_use || calls.len() > 0;
        (
            ParserView {
                usage: p.usage,
                tools: Seq::empty(),
                emitted_tools: ids,
                reasoning: marked(p.reasoning, None),
                saw_tool_use,
                emitted_terminal: true,
            },
            thoughts + calls + seq![
                Ok(StreamEventView::Usage(p.usage)),
                Ok(
                    StreamEventView::MessageDelta {
                        stop_reason: stop_reason_of(status, incomplete_reason, saw_tool_use),
                    },
                ),
                Ok(StreamEventView::Done),
            ],
        )
    }
}

/// After the event that carries the complete answer.
pub open spec fn after_terminal(p: ParserView, v: JsonView) -> (ParserView, Seq<ItemView>) {
    match field_of(v, "response"@) {
        Some(response) => {
            let (parts, thoughts) = match items_field(response, "output"@) {
                Some(output) => after_output(p.reasoning, output),
                None => (p.reasoning, Seq::empty()),
            };
            let (end, rest) = after_end(
                ParserView {
                    usage: usage_of(field_of(response, "usage"@)),
                    reasoning: parts,
                    ..p
                },
                text_field(response, "status"@),
                inner_text(response, "incomplete_details"@, "reason"@),
            );
            (end, thoughts + rest)
        },
        None => after_end(p, None, None),
    }
}

/// After the event that reports a failed answer.
pub open spec fn after_failed(p: ParserView, v: JsonView) -> (ParserView, Seq<ItemView>) {
    (
        ParserView {
            usage: match field_of(v, "response"@) {
                Some(response) => usage_of(field_of(response, "usage"@)),
                None => p.usage,
            },
            emitted_terminal: true,
            ..p
        },
        seq![Err(event_error(v))],
    )
}

/// What one event does: the parser behind it, the items it hands out, and
/// whether it ends the stream.
pub open spec fn after_event(p: ParserView, v: JsonView) -> (ParserView, Seq<ItemView>, bool) {
    let kind = text_field(v, "type"@);
    if kind == Some("response.output_text.delta"@) {
        (p, text_delta_items(v), false)
    } else if kind == Some("response.reasoning_summary_text.delta"@) {
        let (q, items) = after_reasoning_delta(p, v);
        (q, items, false)
    } else if kind == Some("response.reasoning_summary_text.done"@) || kind == Some(
        "response.reasoning_summary_part.done"@,
    ) {
        (after_reasoning_done(p, v), Seq::empty(), false)
    } else if kind == Some("response.output_item.added"@) {
        (after_item_added(p, v), Seq::empty(), false)
    } else if kind == Some("response.function_call_arguments.delta"@) {
        (after_arguments_delta(p, v), Seq::empty(), false)
    } else if kind == Some("response.function_call_arguments.done"@) {
        (after_arguments_done(p, v), Seq::empty(), false)
    } else if kind == Some("response.output_item.done"@) {
        let (q, items) = after_item_done(p, v);
        (q, items, false)
    } else if kind == Some("response.completed"@) || kind == Some("response.incomplete"@) {
        let (q, items) = after_terminal(p, v);
        (q, items, true)
    } else if kind == Some("response.failed"@) {
        let (q, items) = after_failed(p, v);
        (q, items, true)
    } else if kind == Some("error"@) || kind == Some("response.error"@) {
        (p, seq![Err(event_error(v))], true)
    } else {
        (p, Seq::empty(), false)
    }
}

/// Turns the events of the Responses wire into [`StreamEvent`]s. A tool call
/// is handed out once and whole, a summary part once, and the end once.
#[derive(Debug)]
pub struct ResponsesSseParser {
    usage: Usage,
    pending_tools: Vec<PendingToolCall>,
    emitted_tool_items: Vec<String>,
    pending_reasoning: Vec<PendingReasoning>,
    saw_tool_use: bool,
    emitted_terminal: bool,
}

impl View for ResponsesSseParser {
    type V = ParserView;

    closed spec fn view(&self) -> ParserView {
        ParserView {
            usage: self.usage,
            tools: views(self.pending_tools@),
            emitted_tools: views(self.emitted_tool_items@),
            reasoning: views(self.pending_reasoning@),
            saw_tool_use: self.saw_tool_use,
            emitted_terminal: self.emitted_terminal,
        }
    }
}

/// The queue that a parser hands its items to.
pub type Outbox = VecDeque<Result<StreamEvent, ProviderError>>;

fn emit(out: &mut Outbox, item: Result<StreamEvent, ProviderError>)
    ensures
        items_view(final(out)@) == items_view(old(out)@).push(item_view(item)),
{
    out.push_back(item);
    assert(items_view(out@) =~= items_view(old(out)@).push(item_view(item)));
}

proof fn part_slot_skips(
    parts: Seq<ReasoningView>,
    item_id: Seq<char>,
    summary_index: u64,
    upto: int,
)
    requires
        0 <= upto <= parts.len(),
        forall|i: int| 0 <= i < upto ==> part_before(#[trigger] parts[i], item_id, summary_index),
    ensures
        part_slot(parts, item_id, summary_index) == upto + part_slot(
            parts.skip(upto),
            item_id,
            summary_index,
        ),
    decreases upto,
{
    if upto == 0 {
        assert(parts.skip(0) =~= parts);
    } else {
        let rest = parts.drop_first();
        assert forall|i: int| 0 <= i < upto - 1 implies part_before(
            #[trigger] rest[i],
            item_id,
            summary_index,
        ) by {
            assert(rest[i] == parts[i + 1]);
        }
        part_slot_skips(rest, item_id, summary_index, upto - 1);
        assert(rest.skip(upto - 1) =~= parts.skip(upto));
        assert(part_before(parts[0], item_id, summary_index));
    }
}

proof fn tool_slot_skips(tools: Seq<PendingToolCallView>, item_id: Seq<char>, upto: int)
    requires
        0 <= upto <= tools.len(),
        forall|i: int| 0 <= i < upto ==> (#[trigger] tools[i]).item_id != item_id,
    ensures
        match tool_slot(tools.skip(upto), item_id) {
            Some(i) => tool_slot(tools, item_id) == Some(upto + i),
            None => tool_slot(tools, item_id) is None,
        },
    decreases upto,
{
    if upto == 0 {
        assert(tools.skip(0) =~= tools);
    } else {
        let rest = tools.drop_first();
        assert forall|i: int| 0 <= i < upto - 1 implies (#[trigger] rest[i]).item_id
            != item_id by {
            assert(rest[i] == tools[i + 1]);
        }
        tool_slot_skips(rest, item_id, upto - 1);
        assert(rest.skip(upto - 1) =~= tools.skip(upto));
        assert(tools[0].item_id != item_id);
    }
}

/// A call under way is found at the position that holds its id.
pub proof fn tool_slot_holds(tools: Seq<PendingToolCallView>, item_id: Seq<char>)
    ensures
        match tool_slot(tools, item_id) {
            Some(i) => 0 <= i < tools.len() && tools[i].item_id == item_id,
            None => forall|i: int| 0 <= i < tools.len() ==> (#[trigger] tools[i]).item_id
                != item_id,
        },
    decreases tools.len(),
{
    if tools.len() > 0 && tools[0].item_id != item_id {
        let rest = tools.drop_first();
        tool_slot_holds(rest, item_id);
        assert forall|i: int| 0 < i < tools.len() implies #[trigger] tools[i] == rest[i - 1] by {}
    }
}

fn find_tool(tools: &Vec<PendingToolCall>, item_id: &str) -> (r: Option<usize>)
    ensures
        match r {
            Some(i) => tool_slot(views(tools@), item_id@) == Some(i as int) && i < tools.len(),
            None => tool_slot(views(tools@), item_id@) is None,
        },
{
    let ghost all = views(tools@);
    let mut i: usize = 0;
    while i < tools.len()
        invariant
            i <= tools.len(),
            all == views(tools@),
            forall|k: int| 0 <= k < i ==> (#[trigger] all[k]).item_id != item_id@,
        decreases tools.len() - i,
    {
        if same_text(tools[i].item_id.as_str(), item_id) {
            proof {
                tool_slot_skips(all, item_id@, i as int);
                assert(all.skip(i as int)[0] == tools@[i as int]@);
            }
            return Some(i);
        }
        i = i + 1;
    }
    proof {
        tool_slot_skips(all, item_id@, i as int);
    }
    None
}

fn contains_text(texts: &Vec<String>, text: &str) -> (r: bool)
    ensures
        r == views(texts@).contains(text@),
{
    let mut i: usize = 0;
    while i < texts.len()
        invariant
            i <= texts.len(),
            forall|k: int| 0 <= k < i ==> #[trigger] views(texts@)[k] != text@,
        decreases texts.len() - i,
    {
        if same_text(texts[i].as_str(), text) {
            assert(views(texts@)[i as int] == text@);
            return true;
        }
        i = i + 1;
    }
    false
}

/// Where an event's summary part belongs.
fn reasoning_key(value: &Json) -> (r: Option<(String, u64)>)
    ensures
        match r {
            Some((item_id, summary_index)) => event_key(value@) == Some((item_id@, summary_index)),
            None => event_key(value@) is None,
        },
{
    match get_text(value, "item_id") {
        Some(item_id) => match get_u64(value, "summary_index") {
            Some(summary_index) => Some((item_id.to_owned(), summary_index)),
            None => None,
        },
        None => None,
    }
}

impl ResponsesSseParser {
    /// A parser before the first event.
    pub fn new() -> (r: ResponsesSseParser)
        ensures
            r@ == ParserView::fresh(),
    {
        let r: ResponsesSseParser = ResponsesSseParser {
            usage: Usage::default(),
            pending_tools: Vec::new(),
            emitted_tool_items: Vec::new(),
            pending_reasoning: Vec::new(),
            saw_tool_use: false,
            emitted_terminal: false,
        };
        assert(r@ =~~= ParserView::fresh());
        r
    }

    fn put_tool(&mut self, tool: PendingToolCall)
        ensures
            final(self)@ == (ParserView { tools: with_tool(old(self)@.tools, tool@), ..old(self)@ }),
    {
        match find_tool(&self.pending_tools, tool.item_id.as_str()) {
            Some(i) => {
                self.pending_tools.set(i, tool);
            },
            None => {
                self.pending_tools.push(tool);
            },
        }
        assert(self@.tools =~= with_tool(old(self)@.tools, tool@));
    }

    fn known_tool(&self, item_id: &str) -> (r: PendingToolCall)
        ensures
            r@ == tool_or_fresh(self@.tools, item_id@),
    {
        match find_tool(&self.pending_tools, item_id) {
            Some(i) => {
                let tool: &PendingToolCall = &self.pending_tools[i];
                PendingToolCall {
                    call_id: tool.call_id.clone(),
                    item_id: tool.item_id.clone(),
                    name: tool.name.clone(),
                    arguments: tool.arguments.clone(),
                }
            },
            None => {
                let tool: PendingToolCall = PendingToolCall {
                    call_id: String::new(),
                    item_id: item_id.to_owned(),
                    name: String::new(),
                    arguments: String::new(),
                };
                assert(tool@ =~~= tool_or_fresh(self@.tools, item_id@));
                tool
            },
        }
    }

    fn enter_part(&mut self, item_id: &str, summary_index: u64, output_index: Option<u64>) -> (r:
        usize)
        ensures
            final(self)@ == (ParserView {
                reasoning: with_part(
                    old(self)@.reasoning,
                    item_id@,
                    summary_index,
                    output_index,
                ),
                ..old(self)@
            }),
            r == part_slot(old(self)@.reasoning, item_id@, summary_index),
            r < final(self).pending_reasoning@.len(),
    {
        let ghost all = views(self.pending_reasoning@);
        let mut i: usize = 0;
        let mut searching: bool = true;
        while searching && i < self.pending_reasoning.len()
            invariant
                *self == *old(self),
                i <= self.pending_reasoning.len(),
                all == views(self.pending_reasoning@),
                forall|k: int|
                    0 <= k < i ==> part_before(#[trigger] all[k], item_id@, summary_index),
                !searching ==> i < all.len() && !part_before(
                    all[i as int],
                    item_id@,
                    summary_index,
                ),
            decreases
                self.pending_reasoning.len() - i,
                if searching {
                    1int
                } else {
                    0int
                },
        {
            let part: &PendingReasoning = &self.pending_reasoning[i];
            assert(all[i as int] == part@);
            let before: bool = if same_text(part.item_id.as_str(), item_id) {
                part.summary_index < summary_index
            } else {
                text_at_most(part.item_id.as_str(), item_id)
            };
            if before {
                i = i + 1;
            } else {
                searching = false;
            }
        }
        proof {
            part_slot_skips(all, item_id@, summary_index, i as int);
            if i < all.len() {
                assert(all.skip(i as int)[0] == all[i as int]);
            }
        }
        let present: bool = i < self.pending_reasoning.len() && same_text(
            self.pending_reasoning[i].item_id.as_str(),
            item_id,
        ) && self.pending_reasoning[i].summary_index == summary_index;
        if !present {
            let part: PendingReasoning = PendingReasoning {
                item_id: item_id.to_owned(),
                output_index,
                summary_index,
                text: String::new(),
                encrypted_content: None,
                emitted: false,
            };
            assert(part@.text =~= Seq::empty());
            self.pending_reasoning.insert(i, part);
            assert(views(self.pending_reasoning@) =~= all.insert(i as int, part@));
        }
        i
    }

    fn output_text_delta(&self, value: &Json, out: &mut Outbox)
        ensures
            items_view(final(out)@) == items_view(old(out)@) + text_delta_items(value@),
    {
        if let Some(delta) = get_text(value, "delta") {
            if !delta.is_empty() {
                emit(out, Ok(StreamEvent::ContentDelta(delta.to_owned())));
            }
        }
        assert(items_view(out@) =~= items_view(old(out)@) + text_delta_items(value@));
    }

    fn reasoning_summary_delta(&mut self, value: &Json, out: &mut Outbox)
        ensures
            final(self)@ == after_reasoning_delta(old(self)@, value@).0,
            items_view(final(out)@) == items_view(old(out)@) + after_reasoning_delta(
                old(self)@,
                value@,
            ).1,
    {
        let ghost p = self@;
        let ghost start = items_view(out@);
        match (reasoning_key(value), get_text(value, "delta")) {
            (Some((item_id, summary_index)), Some(delta)) => {
                let slot: usize = self.enter_part(
                    item_id.as_str(),
                    summary_index,
                    get_u64(value, "output_index"),
                );
                let ghost parts = self@.reasoning;
                self.pending_reasoning[slot].text.append(delta);
                assert(self@.reasoning =~= parts.update(
                    slot as int,
                    ReasoningView {
                        text: parts[slot as int].text + delta@,
                        ..parts[slot as int]
                    },
                ));
                if !delta.is_empty() {
                    emit(out, Ok(StreamEvent::ThinkingDelta { text: delta.to_owned() }));
                }
            },
            _ => {},
        }
        assert(items_view(out@) =~= start + after_reasoning_delta(p, value@).1);
    }

    fn reasoning_summary_done(&mut self, value: &Json)
        ensures
            final(self)@ == after_reasoning_done(old(self)@, value@),
    {
        if let Some((item_id, summary_index)) = reasoning_key(value) {
            let found: Option<&Json> = match value.get("text") {
                Some(text) => Some(text),
                None => get_inner(value, "part", "text"),
            };
            let text: String = match found {
                Some(j) => match j.as_str() {
                    Some(t) => t.to_owned(),
                    None => String::new(),
                },
                None => String::new(),
            };
            assert(text@ =~= done_text(value@));
            let slot: usize = self.enter_part(
                item_id.as_str(),
                summary_index,
                get_u64(value, "output_index"),
            );
            let ghost parts = self@.reasoning;
            if !text.as_str().is_empty() {
                self.pending_reasoning[slot].text = text;
            }
            assert(self@.reasoning =~= parts.update(
                slot as int,
                if text@.len() > 0 {
                    ReasoningView { text: text@, ..parts[slot as int] }
                } else {
                    parts[slot as int]
                },
            ));
        }
    }

    fn output_item_added(&mut self, value: &Json)
        ensures
            final(self)@ == after_item_added(old(self)@, value@),
    {
        if let Some(tool) = pending_tool_from_item(value.get("item")) {
            self.put_tool(tool);
        }
    }

    fn tool_arguments_delta(&mut self, value: &Json)
        ensures
            final(self)@ == after_arguments_delta(old(self)@, value@),
    {
        match (get_text(value, "item_id"), get_text(value, "delta")) {
            (Some(item_id), Some(delta)) => {
                let mut tool: PendingToolCall = self.known_tool(item_id);
                tool.arguments.append(delta);
                self.put_tool(tool);
            },
            _ => {},
        }
    }

    fn tool_arguments_done(&mut self, value: &Json)
        ensures
            final(self)@ == after_arguments_done(old(self)@, value@),
    {
        if let Some(item_id) = get_text(value, "item_id") {
            let mut tool: PendingToolCall = self.known_tool(item_id);
            if let Some(arguments) = get_text(value, "arguments") {
                tool.arguments = arguments.to_owned();
            }
            if let Some(name) = get_text(value, "name") {
                tool.name = name.to_owned();
            }
            self.put_tool(tool);
        }
    }

    fn take_tool(&mut self, item_id: &str) -> (r: PendingToolCall)
        ensures
            final(self)@ == (ParserView {
                tools: without_tool(old(self)@.tools, item_id@),
                ..old(self)@
            }),
            r@ == if item_id@.len() == 0 {
                (PendingToolCallView {
                    call_id: Seq::empty(),
                    item_id: item_id@,
                    name: Seq::empty(),
                    arguments: Seq::empty(),
                })
            } else {
                tool_or_fresh(old(self)@.tools, item_id@)
            },
    {
        if !item_id.is_empty() {
            if let Some(i) = find_tool(&self.pending_tools, item_id) {
                let tool: PendingToolCall = self.pending_tools.remove(i);
                assert(self@.tools =~= old(self)@.tools.remove(i as int));
                return tool;
            }
        }
        let tool: PendingToolCall = PendingToolCall {
            call_id: String::new(),
            item_id: item_id.to_owned(),
            name: String::new(),
            arguments: String::new(),
        };
        assert(tool@.call_id =~= Seq::empty());
        assert(tool@.name =~= Seq::empty());
        assert(tool@.arguments =~= Seq::empty());
        tool
    }

    fn emit_tool_use(&mut self, tool: PendingToolCall, out: &mut Outbox)
        ensures
            final(self)@ == (ParserView {
                emitted_tools: with_emitted(old(self)@.emitted_tools, tool@.item_id),
                saw_tool_use: true,
                ..old(self)@
            }),
            items_view(final(out)@) == items_view(old(out)@).push(tool_event(tool@)),
    {
        if !tool.item_id.as_str().is_empty() {
            let id: String = tool.item_id.clone();
            proof {
                views_push(self.emitted_tool_items@, id);
            }
            self.emitted_tool_items.push(id);
        }
        self.saw_tool_use = true;
        emit(
            out,
            Ok(
                StreamEvent::ToolUse {
                    id: combined_tool_use_id(tool.call_id.as_str(), tool.item_id.as_str()),
                    name: tool.name,
                    input: parse_tool_arguments(tool.arguments.as_str()),
                },
            ),
        );
    }

    fn function_call_done(&mut self, item: &Json, out: &mut Outbox)
        ensures
            final(self)@ == after_call_done(old(self)@, item@).0,
            items_view(final(out)@) == items_view(old(out)@) + after_call_done(
                old(self)@,
                item@,
            ).1,
    {
        let ghost p = self@;
        let ghost start = items_view(out@);
        let item_id: String = get_text_or_empty(item, "id");
        if !item_id.as_str().is_empty() && contains_text(
            &self.emitted_tool_items,
            item_id.as_str(),
        ) {
            assert(items_view(out@) =~= start + Seq::<ItemView>::empty());
            return ;
        }
        let mut tool: PendingToolCall = self.take_tool(item_id.as_str());
        proof {
            tool_slot_holds(p.tools, item_id@);
        }
        if let Some(call_id) = get_text(item, "call_id") {
            tool.call_id = call_id.to_owned();
        }
        if let Some(name) = get_text(item, "name") {
            tool.name = name.to_owned();
        }
        if let Some(arguments) = get_text(item, "arguments") {
            tool.arguments = arguments.to_owned();
        }
        assert(tool@ == completed_tool(p.tools, item@));
        if !tool.call_id.as_str().is_empty() || !tool.name.as_str().is_empty() {
            self.emit_tool_use(tool, out);
        }
        assert(items_view(out@) =~= start + after_call_done(p, item@).1);
    }

    fn emit_reasoning(&mut self, item_id: Option<&str>, out: &mut Outbox)
        ensures
            final(self)@ == (ParserView {
                reasoning: marked(old(self)@.reasoning, optional_str(item_id)),
                ..old(self)@
            }),
            items_view(final(out)@) == items_view(old(out)@) + reasoning_events(
                old(self)@.reasoning,
                optional_str(item_id),
            ),
    {
        let ghost all = self@.reasoning;
        let ghost start = items_view(out@);
        let ghost chosen = optional_str(item_id);
        let mut i: usize = 0;
        assert(items_view(out@) =~= start + reasoning_events(all.take(0), chosen));
        while i < self.pending_reasoning.len()
            invariant
                i <= self.pending_reasoning.len(),
                self.pending_reasoning.len() == all.len(),
                all == old(self)@.reasoning,
                chosen == optional_str(item_id),
                self@ == (ParserView { reasoning: self@.reasoning, ..old(self)@ }),
                forall|k: int| 0 <= k < i ==> self@.reasoning[k] == #[trigger] marked(all, chosen)[k],
                forall|k: int| i <= k < all.len() ==> #[trigger] self@.reasoning[k] == all[k],
                items_view(out@) == start + reasoning_events(all.take(i as int), chosen),
            decreases self.pending_reasoning.len() - i,
        {
            proof {
                assert(all.take(i + 1).drop_last() =~= all.take(i as int));
                assert(self@.reasoning[i as int] == all[i as int]);
            }
            let ghost prior = self@.reasoning;
            let chosen_part: bool = match item_id {
                Some(id) => same_text(self.pending_reasoning[i].item_id.as_str(), id),
                None => true,
            };
            if chosen_part {
                if !self.pending_reasoning[i].emitted {
                    let part: &PendingReasoning = &self.pending_reasoning[i];
                    let id: Option<String> = if !part.item_id.as_str().is_empty() {
                        Some(part.item_id.clone())
                    } else {
                        None
                    };
                    emit(
                        out,
                        Ok(
                            StreamEvent::ThinkingBlock {
                                text: part.text.clone(),
                                provider: ThinkingProvider::OpenAIResponses,
                                metadata: ThinkingMetadata::openai_responses(
                                    id,
                                    part.output_index,
                                    part.summary_index,
                                    clone_optional(&part.encrypted_content),
                                ),
                            },
                        ),
                    );
                }
                self.pending_reasoning[i].emitted = true;
            }
            assert(items_view(out@) =~= start + reasoning_events(all.take(i + 1), chosen));
            assert(self@.reasoning =~= prior.update(i as int, marked(all, chosen)[i as int]));
            i = i + 1;
        }
        assert(all.take(i as int) =~= all);
        assert(self@.reasoning =~= marked(all, chosen));
    }

    fn capture_reasoning_item(&mut self, item: &Json, output_index: Option<u64>, out: &mut Outbox)
        ensures
            final(self)@ == (ParserView {
                reasoning: after_reasoning_item(
                    old(self)@.reasoning,
                    item@,
                    output_index,
                ).0,
                ..old(self)@
            }),
            items_view(final(out)@) == items_view(old(out)@) + after_reasoning_item(
                old(self)@.reasoning,
                item@,
                output_index,
            ).1,
    {
        let ghost p = self@;
        let item_id: String = get_text_or_empty(item, "id");
        let encrypted_content: Option<String> = own_optional(get_text(item, "encrypted_content"));
        if let Some(summary) = get_items(item, "summary") {
            let ghost all = views(summary@);
            let mut i: usize = 0;
            assert(all.take(0) =~= Seq::<JsonView>::empty());
            while i < summary.len()
                invariant
                    i <= summary.len(),
                    all == views(summary@),
                    item_id@ == text_field_or_empty(item@, "id"@),
                    optional_text(encrypted_content) == text_field(item@, "encrypted_content"@),
                    self@ == (ParserView {
                        reasoning: with_summary(
                            p.reasoning,
                            item@,
                            output_index,
                            all.take(i as int),
                        ),
                        ..p
                    }),
                decreases summary.len() - i,
            {
                proof {
                    assert(all.take(i + 1).drop_last() =~= all.take(i as int));
                    assert(all.take(i + 1).last() == summary@[i as int]@);
                }
                let slot: usize = self.enter_part(item_id.as_str(), i as u64, output_index);
                let ghost entered = self@.reasoning;
                if let Some(text) = get_text(&summary[i], "text") {
                    self.pending_reasoning[slot].text = text.to_owned();
                }
                self.pending_reasoning[slot].encrypted_content = clone_optional(
                    &encrypted_content,
                );
                if self.pending_reasoning[slot].output_index.is_none() {
                    self.pending_reasoning[slot].output_index = output_index;
                }
                assert(self@.reasoning =~= with_summary(
                    p.reasoning,
                    item@,
                    output_index,
                    all.take(i + 1),
                ));
                i = i + 1;
            }
            assert(all.take(i as int) =~= all);
        }
        self.emit_reasoning(Some(item_id.as_str()), out);
    }

    fn output_item_done(&mut self, value: &Json, out: &mut Outbox)
        ensures
            final(self)@ == after_item_done(old(self)@, value@).0,
            items_view(final(out)@) == items_view(old(out)@) + after_item_done(
                old(self)@,
                value@,
            ).1,
    {
        let kind: Option<&str> = get_inner_text(value, "item", "type");
        if let Some(item) = value.get("item") {
            if is_text(kind, "function_call") {
                self.function_call_done(item, out);
                return ;
            } else if is_text(kind, "reasoning") {
                self.capture_reasoning_item(item, get_u64(value, "output_index"), out);
                return ;
            }
        }
        assert(items_view(out@) =~= items_view(out@) + Seq::<ItemView>::empty());
    }

    fn capture_reasoning_from_response(&mut self, response: &Json, out: &mut Outbox)
        ensures
            ({
                let after = match items_field(response@, "output"@) {
                    Some(output) => after_output(old(self)@.reasoning, output),
                    None => (old(self)@.reasoning, Seq::empty()),
                };
                &&& final(self)@ == (ParserView { reasoning: after.0, ..old(self)@ })
                &&& items_view(final(out)@) == items_view(old(out)@) + after.1
            }),
    {
        let ghost p = self@;
        let ghost start = items_view(out@);
        if let Some(output) = get_items(response, "output") {
            let ghost all = views(output@);
            let mut i: usize = 0;
            assert(all.take(0) =~= Seq::<JsonView>::empty());
            assert(items_view(out@) =~= start + after_output(p.reasoning, all.take(0)).1);
            while i < output.len()
                invariant
                    i <= output.len(),
                    all == views(output@),
                    self@ == (ParserView {
                        reasoning: after_output(p.reasoning, all.take(i as int)).0,
                        ..p
                    }),
                    items_view(out@) == start + after_output(p.reasoning, all.take(i as int)).1,
                decreases output.len() - i,
            {
                proof {
                    assert(all.take(i + 1).drop_last() =~= all.take(i as int));
                    assert(all.take(i + 1).last() == output@[i as int]@);
                }
                if is_text(get_text(&output[i], "type"), "reasoning") {
                    self.capture_reasoning_item(&output[i], Some(i as u64), out);
                }
                assert(items_view(out@) =~= start + after_output(p.reasoning, all.take(i + 1)).1);
                i = i + 1;
            }
            assert(all.take(i as int) =~= all);
        } else {
            assert(items_view(out@) =~= start + Seq::<ItemView>::empty());
        }
    }

    fn emit_pending_tools(&mut self, out: &mut Outbox)
        ensures
            ({
                let (ids, events) = drained(old(self)@.tools, old(self)@.emitted_tools);
                &&& final(self)@ == (ParserView {
                    tools: Seq::empty(),
                    emitted_tools: ids,
                    saw_tool_use: old(self)@.saw_tool_use || events.len() > 0,
                    ..old(self)@
                })
                &&& items_view(final(out)@) == items_view(old(out)@) + events
            }),
    {
        let ghost p = self@;
        let ghost start = items_view(out@);
        let mut tools: Vec<PendingToolCall> = Vec::new();
        std::mem::swap(&mut tools, &mut self.pending_tools);
        let ghost all = views(tools@);
        let ghost given = tools@;
        assert(all.take(0) =~= Seq::<PendingToolCallView>::empty());
        assert(items_view(out@) =~= start + drained(all.take(0), p.emitted_tools).1);
        assert(self@.tools =~= Seq::empty());
        for tool in it: tools
            invariant
                it.seq() == given,
                all == views(given),
                p == old(self)@,
                self@ == (ParserView {
                    tools: Seq::empty(),
                    emitted_tools: drained(all.take(it.index() as int), p.emitted_tools).0,
                    saw_tool_use: p.saw_tool_use || drained(
                        all.take(it.index() as int),
                        p.emitted_tools,
                    ).1.len() > 0,
                    ..p
                }),
                items_view(out@) == start + drained(
                    all.take(it.index() as int),
                    p.emitted_tools,
                ).1,
        {
            let ghost at = it.index() as int;
            proof {
                assert(given[at] == tool);
                assert(all.take(at + 1).drop_last() =~= all.take(at));
                assert(all.take(at + 1).last() == tool@);
            }
            let seen: bool = !tool.item_id.as_str().is_empty() && contains_text(
                &self.emitted_tool_items,
                tool.item_id.as_str(),
            );
            if !seen {
                self.emit_tool_use(tool, out);
            }
            assert(items_view(out@) =~= start + drained(all.take(at + 1), p.emitted_tools).1);
        }
        assert(all.take(all.len() as int) =~= all);
    }

    /// Ends the stream: hands out what is still pending, then the token counts,
    /// the reason and the end mark. Nothing where the end was reported before.
    pub fn emit_terminal(
        &mut self,
        status: Option<&str>,
        incomplete_reason: Option<&str>,
        out: &mut Outbox,
    )
        ensures
            ({
                let after = after_end(
                    old(self)@,
                    optional_str(status),
                    optional_str(incomplete_reason),
                );
                &&& final(self)@ == after.0
                &&& items_view(final(out)@) == items_view(old(out)@) + after.1
            }),
    {
        let ghost p = self@;
        let ghost start = items_view(out@);
        if self.emitted_terminal {
            assert(items_view(out@) =~= start + Seq::<ItemView>::empty());
            return ;
        }
        self.emit_reasoning(None, out);
        self.emit_pending_tools(out);
        emit(out, Ok(StreamEvent::Usage(self.usage)));
        emit(
            out,
            Ok(
                StreamEvent::MessageDelta {
                    stop_reason: responses_stop_reason(
                        status,
                        incomplete_reason,
                        self.saw_tool_use,
                    ),
                },
            ),
        );
        emit(out, Ok(StreamEvent::Done));
        self.emitted_terminal = true;
        assert(items_view(out@) =~= start + after_end(
            p,
            optional_str(status),
            optional_str(incomplete_reason),
        ).1);
    }

    fn terminal_response(&mut self, value: &Json, out: &mut Outbox)
        ensures
            final(self)@ == after_terminal(old(self)@, value@).0,
            items_view(final(out)@) == items_view(old(out)@) + after_terminal(
                old(self)@,
                value@,
            ).1,
    {
        let ghost p = self@;
        let ghost start = items_view(out@);
        if let Some(response) = value.get("response") {
            self.usage = usage_from_response(response.get("usage"));
            self.capture_reasoning_from_response(response, out);
            self.emit_terminal(
                get_text(response, "status"),
                get_inner_text(response, "incomplete_details", "reason"),
                out,
            );
            assert(items_view(out@) =~= start + after_terminal(p, value@).1);
        } else {
            self.emit_terminal(None, None, out);
        }
    }

    fn failed_response(&mut self, value: &Json, out: &mut Outbox)
        ensures
            final(self)@ == after_failed(old(self)@, value@).0,
            items_view(final(out)@) == items_view(old(out)@) + after_failed(old(self)@, value@).1,
    {
        let ghost start = items_view(out@);
        if let Some(response) = value.get("response") {
            self.usage = usage_from_response(response.get("usage"));
        }
        emit(out, Err(stream_error(value)));
        self.emitted_terminal = true;
        assert(items_view(out@) =~= start + seq![Err(event_error(value@))]);
    }

    /// Takes one event; true where it ends the stream.
    pub fn process_value(&mut self, value: &Json, out: &mut Outbox) -> (r: bool)
        ensures
            final(self)@ == after_event(old(self)@, value@).0,
            items_view(final(out)@) == items_view(old(out)@) + after_event(old(self)@, value@).1,
            r == after_event(old(self)@, value@).2,
    {
        let ghost start = items_view(out@);
        let kind: Option<&str> = get_text(value, "type");
        if is_text(kind, "response.output_text.delta") {
            self.output_text_delta(value, out);
            false
        } else if is_text(kind, "response.reasoning_summary_text.delta") {
            self.reasoning_summary_delta(value, out);
            false
        } else if is_text(kind, "response.reasoning_summary_text.done") || is_text(
            kind,
            "response.reasoning_summary_part.done",
        ) {
            self.reasoning_summary_done(value);
            assert(items_view(out@) =~= start + Seq::<ItemView>::empty());
            false
        } else if is_text(kind, "response.output_item.added") {
            self.output_item_added(value);
            assert(items_view(out@) =~= start + Seq::<ItemView>::empty());
            false
        } else if is_text(kind, "response.function_call_arguments.delta") {
            self.tool_arguments_delta(value);
            assert(items_view(out@) =~= start + Seq::<ItemView>::empty());
            false
        } else if is_text(kind, "response.function_call_arguments.done") {
            self.tool_arguments_done(value);
            assert(items_view(out@) =~= start + Seq::<ItemView>::empty());
            false
        } else if is_text(kind, "response.output_item.done") {
            self.output_item_done(value, out);
            false
        } else if is_text(kind, "response.completed") || is_text(kind, "response.incomplete") {
            self.terminal_response(value, out);
            true
        } else if is_text(kind, "response.failed") {
            self.failed_response(value, out);
            true
        } else if is_text(kind, "error") || is_text(kind, "response.error") {
            emit(out, Err(stream_error(value)));
            assert(items_view(out@) =~= start + seq![Err(event_error(value@))]);
            true
        } else {
            assert(items_view(out@) =~= start + Seq::<ItemView>::empty());
            false
        }
    }

    /// Takes the end of the input.
    pub fn finish(&mut self, out: &mut Outbox)
        ensures
            final(self)@ == after_end(old(self)@, None, None).0,
            items_view(final(out)@) == items_view(old(out)@) + after_end(
                old(self)@,
                None,
                None,
            ).1,
    {
        self.emit_terminal(None, None, out);
    }
}

/// What the transport delivered.
#[derive(Debug)]
pub enum SsePull {
    /// The data of one server-sent event.
    Data(String),
    /// A read failed, for the given reason.
    Failed(String),
    /// Nothing more comes.
    Closed,
}

/// What [`SsePull`] stands for.
#[verifier::ext_equal]
pub enum SsePullView {
    Data(Seq<char>),
    Failed(Seq<char>),
    Closed,
}

impl View for SsePull {
    type V = SsePullView;

    open spec fn view(&self) -> SsePullView {
        match *self {
            SsePull::Data(data) => SsePullView::Data(data@),
            SsePull::Failed(reason) => SsePullView::Failed(reason@),
            SsePull::Closed => SsePullView::Closed,
        }
    }
}

/// What the driver of a stream does next.
#[derive(Debug)]
pub enum StreamStep {
    /// Hand an item to the consumer.
    Emit(Result<StreamEvent, ProviderError>),
    /// Wait for the transport and feed what it delivers.
    Pull,
    /// The stream is over.
    End,
}

/// The event stream between the transport and the consumer.
#[derive(Debug)]
pub struct ResponsesStream {
    parser: ResponsesSseParser,
    outbox: Outbox,
    done: bool,
}

/// What a [`ResponsesStream`] stands for.
#[verifier::ext_equal]
pub struct StreamView {
    pub parser: ParserView,
    /// Items that wait for the consumer.
    pub outbox: Seq<ItemView>,
    pub done: bool,
}

impl View for ResponsesStream {
    type V = StreamView;

    closed spec fn view(&self) -> StreamView {
        StreamView {
            parser: self.parser@,
            outbox: items_view(self.outbox@),
            done: self.done,
        }
    }
}

impl StreamView {
    /// The stream before anything was read.
    pub open spec fn fresh() -> StreamView {
        StreamView { parser: ParserView::fresh(), outbox: Seq::empty(), done: false }
    }

    /// After the end of the input.
    pub open spec fn ended(self) -> StreamView {
        let (parser, items) = after_end(self.parser, None, None);
        StreamView { parser, outbox: self.outbox + items, done: true }
    }

    /// After data of which serde_json made a value or an error; what is no
    /// JSON is passed over.
    pub open spec fn after_parsed(self, parsed: Result<JsonView, Seq<char>>) -> StreamView {
        match parsed {
            Ok(value) => {
                let (parser, items, over) = after_event(self.parser, value);
                StreamView { parser, outbox: self.outbox + items, done: self.done || over }
            },
            Err(_) => self,
        }
    }

    /// After what the transport delivered. A failed read is reported and the
    /// stream goes on.
    pub open spec fn after_pull(self, pull: SsePullView) -> StreamView {
        match pull {
            SsePullView::Failed(reason) => StreamView {
                outbox: self.outbox.push(
                    Err(ProviderErrorView::Other("SSE read error: "@ + reason)),
                ),
                ..self
            },
            SsePullView::Closed => self.ended(),
            SsePullView::Data(data) => {
                let text = trimmed(data);
                if text == "[DONE]"@ {
                    self.ended()
                } else if text.len() == 0 {
                    self
                } else {
                    self.after_parsed(json_parsed(text))
                }
            },
        }
    }
}

impl ResponsesStream {
    /// A stream before anything was read.
    pub fn new() -> (r: ResponsesStream)
        ensures
            r@ == StreamView::fresh(),
    {
        let r: ResponsesStream = ResponsesStream {
            parser: ResponsesSseParser::new(),
            outbox: VecDeque::new(),
            done: false,
        };
        assert(r@ =~~= StreamView::fresh());
        r
    }

    /// What to do next: items that wait go out first, then the stream is
    /// over or reads on.
    pub fn next(&mut self) -> (r: StreamStep)
        ensures
            match r {
                StreamStep::Emit(item) => old(self)@.outbox.len() > 0 && item_view(item)
                    == old(self)@.outbox[0] && final(self)@ == (StreamView {
                    outbox: old(self)@.outbox.drop_first(),
                    ..old(self)@
                }),
                StreamStep::End => old(self)@.outbox.len() == 0 && old(self)@.done && final(self)@
                    == old(self)@,
                StreamStep::Pull => old(self)@.outbox.len() == 0 && !old(self)@.done
                    && final(self)@ == old(self)@,
            },
    {
        let ghost waiting = self@.outbox;
        match self.outbox.pop_front() {
            Some(item) => {
                assert(self@.outbox =~= waiting.drop_first());
                StreamStep::Emit(item)
            },
            None => if self.done {
                StreamStep::End
            } else {
                StreamStep::Pull
            },
        }
    }

    fn end(&mut self)
        ensures
            final(self)@ == old(self)@.ended(),
    {
        self.parser.finish(&mut self.outbox);
        self.done = true;
    }

    /// Takes what serde_json made of an event's data.
    pub fn accept(&mut self, parsed: Result<Json, String>)
        ensures
            final(self)@ == old(self)@.after_parsed(parsed_view(parsed)),
    {
        if let Ok(value) = parsed {
            let over: bool = self.parser.process_value(&value, &mut self.outbox);
            if over {
                self.done = true;
            }
        }
    }

    /// Takes what the transport delivered.
    pub fn feed(&mut self, pull: SsePull)
        ensures
            final(self)@ == old(self)@.after_pull(pull@),
    {
        match pull {
            SsePull::Failed(reason) => {
                let mut message: String = "SSE read error: ".to_owned();
                message.append(reason.as_str());
                emit(&mut self.outbox, Err(ProviderError::Other(message)));
            },
            SsePull::Closed => self.end(),
            SsePull::Data(data) => {
                let text: String = trim(data.as_str());
                if same_text(text.as_str(), "[DONE]") {
                    self.end();
                } else if !text.as_str().is_empty() {
                    self.accept(Json::parse(text.as_str()));
                }
            },
        }
    }
}

} // verus!
