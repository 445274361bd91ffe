//! What becomes of each event of a Responses stream: which text, reasoning and
//! calls are handed out, and how the stream ends.
use crate::error::ProviderErrorView;
use crate::json::{
    field_of, has, json_parsed, lacks, number_at, told, told_or_nothing, value_at, JsonView,
};
use crate::message::{StopReason, Usage};
use crate::providers::response::{
    inner_text, items_field, text_field, usage_of, PendingToolCallView,
};
use crate::providers::sse::{
    after_end, after_event, after_output, completed_tool, drained, reasoning_events, tool_event,
    tool_slot, tool_slot_holds, with_emitted, with_tool, ItemView, ParserView, SsePullView,
    StreamView,
};
use crate::providers::sse_laws::{call_item, count, drained_once, end_calls_counted, pulled_all};
use crate::stream::StreamEventView;
use crate::text::{blank, joined, trimmed};
use vstd::prelude::*;

verus! {

proof fn kinds_apart()
    ensures
        "response.output_text.delta"@.len() == 26 && "response.output_text.delta"@[16] == 't',
        "response.reasoning_summary_text.delta"@.len() == 37
            && "response.reasoning_summary_text.delta"@[9] == 'r',
        "response.reasoning_summary_text.done"@.len() == 36
            && "response.reasoning_summary_text.done"@[27] == 't',
        "response.reasoning_summary_part.done"@.len() == 36
            && "response.reasoning_summary_part.done"@[27] == 'p',
        "response.output_item.added"@.len() == 26 && "response.output_item.added"@[16] == 'i',
        "response.function_call_arguments.delta"@.len() == 38,
        "response.function_call_arguments.done"@.len() == 37
            && "response.function_call_arguments.done"@[9] == 'f',
        "response.output_item.done"@.len() == 25,
        "response.completed"@.len() == 18,
        "response.incomplete"@.len() == 19,
        "response.failed"@.len() == 15,
        "error"@.len() == 5,
        "response.error"@.len() == 14,
        "function_call"@.len() == 13,
        "reasoning"@.len() == 9,
{
    reveal_strlit("response.output_text.delta");
    reveal_strlit("response.reasoning_summary_text.delta");
    reveal_strlit("response.reasoning_summary_text.done");
    reveal_strlit("response.reasoning_summary_part.done");
    reveal_strlit("response.output_item.added");
    reveal_strlit("response.function_call_arguments.delta");
    reveal_strlit("response.function_call_arguments.done");
    reveal_strlit("response.output_item.done");
    reveal_strlit("response.completed");
    reveal_strlit("response.incomplete");
    reveal_strlit("response.failed");
    reveal_strlit("error");
    reveal_strlit("response.error");
    reveal_strlit("function_call");
    reveal_strlit("reasoning");
}

/// Whether a value is an event of a kind.
pub open spec fn is_event(v: JsonView, kind: Seq<char>) -> bool {
    has(v, "type"@, JsonView::Text(kind))
}

/// Text of the answer is handed out as it comes, and changes nothing else;
/// empty text is passed over.
pub proof fn text_is_handed_out(p: ParserView, v: JsonView)
    requires
        is_event(v, "response.output_text.delta"@),
    ensures
        after_event(p, v).0 == p,
        after_event(p, v).1 == if told_or_nothing(v, "delta"@).len() > 0 {
            seq![
                Ok::<StreamEventView, ProviderErrorView>(
                    StreamEventView::ContentDelta(told_or_nothing(v, "delta"@)),
                ),
            ]
        } else {
            Seq::empty()
        },
        !after_event(p, v).2,
{
    kinds_apart();
}

/// What a tool is handed for the text of its arguments: what the text says, or
/// an empty object where it is blank or no JSON.
pub open spec fn arguments_read(arguments: Seq<char>) -> JsonView {
    if blank(arguments) {
        JsonView::Object(Map::empty())
    } else {
        match json_parsed(arguments) {
            Ok(value) => value,
            Err(_) => JsonView::Object(Map::empty()),
        }
    }
}

/// Whether an item is a tool call with the given ids, name and arguments: its
/// tool-use id is the call id, and behind a `|` the item id where there is one.
pub open spec fn is_call(
    item: ItemView,
    call_id: Seq<char>,
    item_id: Seq<char>,
    tool_name: Seq<char>,
    arguments: Seq<char>,
) -> bool {
    match item {
        Ok(StreamEventView::ToolUse { id, name, input }) => {
            &&& id == if item_id.len() == 0 {
                call_id
            } else {
                call_id + seq!['|'] + item_id
            }
            &&& name == tool_name
            &&& input == arguments_read(arguments)
        },
        _ => false,
    }
}

proof fn tool_event_is_call(tool: PendingToolCallView)
    ensures
        is_call(tool_event(tool), tool.call_id, tool.item_id, tool.name, tool.arguments),
{
    assert(tool.call_id.push('|') + tool.item_id =~= tool.call_id + seq!['|'] + tool.item_id);
}

/// What is known of the call with an item id before its item is done.
pub open spec fn gathered_call(
    tools: Seq<PendingToolCallView>,
    item_id: Seq<char>,
) -> Option<PendingToolCallView> {
    match tool_slot(tools, item_id) {
        Some(i) => Some(tools[i]),
        None => None,
    }
}

/// A call that is known is one of those under way, and a call of which nothing
/// is known is none of them.
pub proof fn gathered_calls_are_under_way(tools: Seq<PendingToolCallView>, item_id: Seq<char>)
    ensures
        match gathered_call(tools, item_id) {
            Some(tool) => tools.contains(tool) && tool.item_id == item_id,
            None => forall|i: int| 0 <= i < tools.len() ==> (#[trigger] tools[i]).item_id
                != item_id,
        },
{
    tool_slot_holds(tools, item_id);
}

proof fn same_ids_same_slot(
    a: Seq<PendingToolCallView>,
    b: Seq<PendingToolCallView>,
    item_id: Seq<char>,
)
    requires
        a.len() == b.len(),
        forall|i: int| 0 <= i < a.len() ==> (#[trigger] a[i]).item_id == b[i].item_id,
    ensures
        tool_slot(a, item_id) == tool_slot(b, item_id),
    decreases a.len(),
{
    if a.len() > 0 {
        assert(a[0].item_id == b[0].item_id);
        let x = a.drop_first();
        let y = b.drop_first();
        assert forall|i: int| 0 <= i < x.len() implies (#[trigger] x[i]).item_id
            == y[i].item_id by {
            assert(a[i + 1].item_id == b[i + 1].item_id);
        }
        same_ids_same_slot(x, y, item_id);
    }
}

proof fn slot_behind(tools: Seq<PendingToolCallView>, tool: PendingToolCallView, item_id: Seq<char>)
    ensures
        tool_slot(tools.push(tool), item_id) == match tool_slot(tools, item_id) {
            Some(i) => Some(i),
            None => if tool.item_id == item_id {
                Some(tools.len() as int)
            } else {
                None
            },
        },
    decreases tools.len(),
{
    reveal_with_fuel(tool_slot, 2);
    if tools.len() > 0 {
        slot_behind(tools.drop_first(), tool, item_id);
        assert(tools.push(tool).drop_first() =~= tools.drop_first().push(tool));
    } else {
        assert(tools.push(tool).drop_first() =~= Seq::<PendingToolCallView>::empty());
    }
}

proof fn gathered_after(
    tools: Seq<PendingToolCallView>,
    tool: PendingToolCallView,
    item_id: Seq<char>,
)
    ensures
        gathered_call(with_tool(tools, tool), item_id) == if item_id == tool.item_id {
            Some(tool)
        } else {
            gathered_call(tools, item_id)
        },
{
    tool_slot_holds(tools, tool.item_id);
    tool_slot_holds(tools, item_id);
    match tool_slot(tools, tool.item_id) {
        Some(i) => {
            same_ids_same_slot(tools.update(i, tool), tools, item_id);
        },
        None => {
            slot_behind(tools, tool, item_id);
        },
    }
}

/// The call that an item announces: its ids, its name and its arguments, as far
/// as the item tells them.
pub open spec fn announced(item: JsonView) -> PendingToolCallView {
    PendingToolCallView {
        call_id: told_or_nothing(item, "call_id"@),
        item_id: told_or_nothing(item, "id"@),
        name: told_or_nothing(item, "name"@),
        arguments: told_or_nothing(item, "arguments"@),
    }
}

/// A call that is announced is under way as announced, in the place of what was
/// known of it; every other call is as it was, and nothing is handed out.
pub proof fn announced_calls_are_under_way(
    p: ParserView,
    v: JsonView,
    item: JsonView,
    other: Seq<char>,
)
    requires
        is_event(v, "response.output_item.added"@),
        has(v, "item"@, item),
        has(item, "type"@, JsonView::Text("function_call"@)),
    ensures
        ({
            let (q, items, over) = after_event(p, v);
            &&& gathered_call(q.tools, other) == if other == announced(item).item_id {
                Some(announced(item))
            } else {
                gathered_call(p.tools, other)
            }
            &&& q == (ParserView { tools: q.tools, ..p })
            &&& items.len() == 0
            &&& !over
        }),
{
    kinds_apart();
    gathered_after(p.tools, announced(item), other);
}

/// What is known of a call, or a call with its item id alone.
pub open spec fn known_or_bare(
    tools: Seq<PendingToolCallView>,
    item_id: Seq<char>,
) -> PendingToolCallView {
    match gathered_call(tools, item_id) {
        Some(tool) => tool,
        None => PendingToolCallView {
            call_id: Seq::empty(),
            item_id,
            name: Seq::empty(),
            arguments: Seq::empty(),
        },
    }
}

/// More text of a call's arguments stands behind what came of them; every other
/// call is as it was, and nothing is handed out.
pub proof fn arguments_are_gathered(
    p: ParserView,
    v: JsonView,
    item_id: Seq<char>,
    delta: Seq<char>,
    other: Seq<char>,
)
    requires
        is_event(v, "response.function_call_arguments.delta"@),
        has(v, "item_id"@, JsonView::Text(item_id)),
        has(v, "delta"@, JsonView::Text(delta)),
    ensures
        ({
            let (q, items, over) = after_event(p, v);
            let known = known_or_bare(p.tools, item_id);
            &&& gathered_call(q.tools, other) == if other == item_id {
                Some(PendingToolCallView { arguments: known.arguments + delta, ..known })
            } else {
                gathered_call(p.tools, other)
            }
            &&& q == (ParserView { tools: q.tools, ..p })
            &&& items.len() == 0
            &&& !over
        }),
{
    kinds_apart();
    tool_slot_holds(p.tools, item_id);
    let known = known_or_bare(p.tools, item_id);
    gathered_after(
        p.tools,
        PendingToolCallView { arguments: known.arguments + delta, ..known },
        other,
    );
}

/// The end of a call's arguments may bring their whole text and the name, which
/// replace what was gathered; every other call is as it was, and nothing is
/// handed out.
pub proof fn arguments_are_complete(
    p: ParserView,
    v: JsonView,
    item_id: Seq<char>,
    arguments: Option<Seq<char>>,
    name: Option<Seq<char>>,
    other: Seq<char>,
)
    requires
        is_event(v, "response.function_call_arguments.done"@),
        has(v, "item_id"@, JsonView::Text(item_id)),
        match arguments {
            Some(text) => has(v, "arguments"@, JsonView::Text(text)),
            None => lacks(v, "arguments"@),
        },
        match name {
            Some(text) => has(v, "name"@, JsonView::Text(text)),
            None => lacks(v, "name"@),
        },
    ensures
        ({
            let (q, items, over) = after_event(p, v);
            let known = known_or_bare(p.tools, item_id);
            &&& gathered_call(q.tools, other) == if other == item_id {
                Some(
                    PendingToolCallView {
                        arguments: match arguments {
                            Some(text) => text,
                            None => known.arguments,
                        },
                        name: match name {
                            Some(text) => text,
                            None => known.name,
                        },
                        ..known
                    },
                )
            } else {
                gathered_call(p.tools, other)
            }
            &&& q == (ParserView { tools: q.tools, ..p })
            &&& items.len() == 0
            &&& !over
        }),
{
    kinds_apart();
    tool_slot_holds(p.tools, item_id);
    let known = known_or_bare(p.tools, item_id);
    gathered_after(
        p.tools,
        PendingToolCallView {
            arguments: match arguments {
                Some(text) => text,
                None => known.arguments,
            },
            name: match name {
                Some(text) => text,
                None => known.name,
            },
            ..known
        },
        other,
    );
}

/// The parser behind several events.
pub open spec fn after_events(p: ParserView, events: Seq<JsonView>) -> ParserView
    decreases events.len(),
{
    if events.len() == 0 {
        p
    } else {
        after_event(after_events(p, events.drop_last()), events.last()).0
    }
}

/// Arguments may come in any number of pieces: what is known of the call is
/// what was known before, with all pieces in their order behind its arguments.
pub proof fn pieces_make_the_arguments(
    p: ParserView,
    events: Seq<JsonView>,
    item_id: Seq<char>,
    pieces: Seq<Seq<char>>,
)
    requires
        pieces.len() == events.len() > 0,
        forall|i: int|
            0 <= i < events.len() ==> {
                &&& is_event(#[trigger] events[i], "response.function_call_arguments.delta"@)
                &&& has(events[i], "item_id"@, JsonView::Text(item_id))
                &&& has(events[i], "delta"@, JsonView::Text(pieces[i]))
            },
    ensures
        ({
            let known = known_or_bare(p.tools, item_id);
            gathered_call(after_events(p, events).tools, item_id) == Some(
                PendingToolCallView {
                    arguments: known.arguments + joined(pieces, Seq::empty()),
                    ..known
                },
            )
        }),
    decreases events.len(),
{
    let last = events.len() - 1;
    let before = events.drop_last();
    assert(is_event(events[last], "response.function_call_arguments.delta"@));
    let known = known_or_bare(p.tools, item_id);
    arguments_are_gathered(after_events(p, before), events[last], item_id, pieces[last], item_id);
    if before.len() == 0 {
        assert(pieces =~= seq![pieces[0]]);
    } else {
        assert forall|i: int| 0 <= i < before.len() implies {
            &&& is_event(#[trigger] before[i], "response.function_call_arguments.delta"@)
            &&& has(before[i], "item_id"@, JsonView::Text(item_id))
            &&& has(before[i], "delta"@, JsonView::Text(pieces.drop_last()[i]))
        } by {
            assert(before[i] == events[i]);
        }
        pieces_make_the_arguments(p, before, item_id, pieces.drop_last());
        assert(joined(pieces, Seq::empty()) =~= joined(pieces.drop_last(), Seq::empty())
            + pieces[last]);
        assert(known.arguments + joined(pieces.drop_last(), Seq::empty()) + pieces[last]
            =~= known.arguments + joined(pieces, Seq::empty()));
    }
}

/// Whether an event says that the item of a function call is done.
pub open spec fn ends_call(v: JsonView, item: JsonView, item_id: Seq<char>) -> bool {
    &&& is_event(v, "response.output_item.done"@)
    &&& has(v, "item"@, item)
    &&& has(item, "type"@, JsonView::Text("function_call"@))
    &&& has(item, "id"@, JsonView::Text(item_id))
}

/// A text that an item tells, or what was gathered of it.
pub open spec fn told_or(item: JsonView, key: Seq<char>, gathered: Seq<char>) -> Seq<char> {
    match told(item, key) {
        Some(text) => text,
        None => gathered,
    }
}

/// What is known of a call once its item is done: what the item tells, and else
/// what was gathered.
pub open spec fn known_at_the_end(
    tools: Seq<PendingToolCallView>,
    item: JsonView,
    item_id: Seq<char>,
) -> PendingToolCallView {
    let gathered = known_or_bare(tools, item_id);
    PendingToolCallView {
        call_id: told_or(item, "call_id"@, gathered.call_id),
        item_id,
        name: told_or(item, "name"@, gathered.name),
        arguments: told_or(item, "arguments"@, gathered.arguments),
    }
}

/// A finished call that was not handed out before is handed out, once and
/// whole, whatever calls were handed out before it: with its call id, its item
/// id, its name and its arguments, as the item tells them and else as they were
/// gathered. Only a call without call id and name is passed over.
pub proof fn finished_calls_are_handed_out(
    p: ParserView,
    v: JsonView,
    item: JsonView,
    item_id: Seq<char>,
)
    requires
        ends_call(v, item, item_id),
        item_id.len() > 0,
        !p.emitted_tools.contains(item_id),
    ensures
        ({
            let (q, items, over) = after_event(p, v);
            let call = known_at_the_end(p.tools, item, item_id);
            &&& !over
            &&& if call.call_id.len() > 0 || call.name.len() > 0 {
                &&& items.len() == 1
                &&& is_call(items[0], call.call_id, call.item_id, call.name, call.arguments)
                &&& q.saw_tool_use
                &&& q.emitted_tools == p.emitted_tools.push(item_id)
            } else {
                items.len() == 0 && q.emitted_tools == p.emitted_tools && q.saw_tool_use
                    == p.saw_tool_use
            }
            &&& q.reasoning == p.reasoning
            &&& q.usage == p.usage
            &&& q.emitted_terminal == p.emitted_terminal
        }),
{
    kinds_apart();
    tool_slot_holds(p.tools, item_id);
    tool_event_is_call(known_at_the_end(p.tools, item, item_id));
}

proof fn slot_without(tools: Seq<PendingToolCallView>, at: int, other: Seq<char>)
    requires
        0 <= at < tools.len(),
        tools[at].item_id != other,
    ensures
        gathered_call(tools.remove(at), other) == gathered_call(tools, other),
    decreases tools.len(),
{
    let left = tools.remove(at);
    if at == 0 {
        assert(left =~= tools.drop_first());
        tool_slot_holds(left, other);
    } else {
        assert(left[0] == tools[0]);
        let rest = tools.drop_first();
        assert(left.drop_first() =~= rest.remove(at - 1));
        assert(rest[at - 1] == tools[at]);
        slot_without(rest, at - 1, other);
        tool_slot_holds(rest, other);
        tool_slot_holds(left.drop_first(), other);
    }
}

/// A finished call is no longer under way, whether it was handed out or passed
/// over; every other call is as it was.
pub proof fn finished_calls_are_no_longer_under_way(
    p: ParserView,
    v: JsonView,
    item: JsonView,
    item_id: Seq<char>,
    other: Seq<char>,
)
    requires
        ends_call(v, item, item_id),
        item_id.len() > 0,
        !p.emitted_tools.contains(item_id),
        other != item_id,
        forall|i: int, j: int|
            0 <= i < j < p.tools.len() ==> (#[trigger] p.tools[i]).item_id != (
            #[trigger] p.tools[j]).item_id,
    ensures
        gathered_call(after_event(p, v).0.tools, item_id) is None,
        gathered_call(after_event(p, v).0.tools, other) == gathered_call(p.tools, other),
{
    kinds_apart();
    tool_slot_holds(p.tools, item_id);
    let left = after_event(p, v).0.tools;
    match tool_slot(p.tools, item_id) {
        Some(at) => {
            slot_without(p.tools, at, other);
            tool_slot_holds(left, item_id);
            assert forall|i: int| 0 <= i < left.len() implies (#[trigger] left[i]).item_id
                != item_id by {
                if i < at {
                    assert(left[i] == p.tools[i]);
                } else {
                    assert(left[i] == p.tools[i + 1]);
                }
            }
        },
        None => {},
    }
}

/// A finished call whose item has no id is handed out too, as the item tells it.
pub proof fn calls_without_item_id_are_handed_out(p: ParserView, v: JsonView, item: JsonView)
    requires
        is_event(v, "response.output_item.done"@),
        has(v, "item"@, item),
        has(item, "type"@, JsonView::Text("function_call"@)),
        told_or_nothing(item, "id"@).len() == 0,
    ensures
        ({
            let (q, items, over) = after_event(p, v);
            let call = announced(item);
            &&& !over
            &&& if call.call_id.len() > 0 || call.name.len() > 0 {
                &&& items.len() == 1
                &&& is_call(items[0], call.call_id, Seq::empty(), call.name, call.arguments)
                &&& q == (ParserView { saw_tool_use: true, ..p })
            } else {
                items.len() == 0 && q == p
            }
        }),
{
    kinds_apart();
    assert(announced(item).item_id =~= Seq::<char>::empty());
    tool_event_is_call(announced(item));
}

/// Whether items hold a call with an item id.
pub open spec fn holds_call(items: Seq<ItemView>, item_id: Seq<char>) -> bool {
    exists|i: int, call: PendingToolCallView|
        0 <= i < items.len() && call.item_id == item_id && #[trigger] is_call(
            items[i],
            call.call_id,
            item_id,
            call.name,
            call.arguments,
        )
}

proof fn still_holds(first: Seq<ItemView>, second: Seq<ItemView>, item_id: Seq<char>)
    ensures
        holds_call(first, item_id) || holds_call(second, item_id) ==> holds_call(
            first + second,
            item_id,
        ),
{
    let both = first + second;
    if holds_call(first, item_id) {
        let (i, call) = choose|i: int, call: PendingToolCallView|
            0 <= i < first.len() && call.item_id == item_id && #[trigger] is_call(
                first[i],
                call.call_id,
                item_id,
                call.name,
                call.arguments,
            );
        assert(both[i] == first[i]);
        assert(is_call(both[i], call.call_id, item_id, call.name, call.arguments));
    } else if holds_call(second, item_id) {
        let (i, call) = choose|i: int, call: PendingToolCallView|
            0 <= i < second.len() && call.item_id == item_id && #[trigger] is_call(
                second[i],
                call.call_id,
                item_id,
                call.name,
                call.arguments,
            );
        assert(both[first.len() + i] == second[i]);
        assert(is_call(
            both[first.len() + i],
            call.call_id,
            item_id,
            call.name,
            call.arguments,
        ));
    }
}

proof fn tool_held(items: Seq<ItemView>, tool: PendingToolCallView)
    ensures
        holds_call(items.push(tool_event(tool)), tool.item_id),
{
    tool_event_is_call(tool);
    let more = items.push(tool_event(tool));
    assert(is_call(
        more[items.len() as int],
        tool.call_id,
        tool.item_id,
        tool.name,
        tool.arguments,
    ));
}

proof fn drained_are_held(
    tools: Seq<PendingToolCallView>,
    emitted: Seq<Seq<char>>,
    item_id: Seq<char>,
)
    ensures
        drained(tools, emitted).0.contains(item_id) ==> emitted.contains(item_id) || holds_call(
            drained(tools, emitted).1,
            item_id,
        ),
    decreases tools.len(),
{
    if tools.len() > 0 {
        drained_are_held(tools.drop_last(), emitted, item_id);
        let (ids, events) = drained(tools.drop_last(), emitted);
        let tool = tools.last();
        tool_held(events, tool);
        let more = seq![tool_event(tool)];
        still_holds(events, more, item_id);
        assert(events + more =~= events.push(tool_event(tool)));
        let after = with_emitted(ids, tool.item_id);
        if after.contains(item_id) && !ids.contains(item_id) {
            let k = choose|k: int| 0 <= k < after.len() && after[k] == item_id;
            if k < ids.len() {
                assert(ids[k] == item_id);
            }
            assert(item_id == tool.item_id);
        }
    }
}

proof fn marked_as_handed_out(p: ParserView, v: JsonView, item_id: Seq<char>)
    ensures
        after_event(p, v).0.emitted_tools.contains(item_id) ==> p.emitted_tools.contains(item_id)
            || holds_call(after_event(p, v).1, item_id),
{
    let (q, items, over) = after_event(p, v);
    if q.emitted_tools.contains(item_id) && !p.emitted_tools.contains(item_id) {
        let kind = text_field(v, "type"@);
        if kind == Some("response.output_item.done"@) {
            match field_of(v, "item"@) {
                Some(item) => {
                    let tool = completed_tool(p.tools, item);
                    tool_held(Seq::empty(), tool);
                    assert(Seq::<ItemView>::empty().push(tool_event(tool)) =~= seq![
                        tool_event(tool),
                    ]);
                    let k = choose|k: int|
                        0 <= k < q.emitted_tools.len() && q.emitted_tools[k] == item_id;
                    if k < p.emitted_tools.len() {
                        assert(p.emitted_tools[k] == item_id);
                    }
                },
                None => {},
            }
        } else {
            drained_are_held(p.tools, p.emitted_tools, item_id);
            let calls = drained(p.tools, p.emitted_tools).1;
            let response = field_of(v, "response"@);
            let (thoughts, usage) = match response {
                Some(r) => (
                    match items_field(r, "output"@) {
                        Some(output) => after_output(p.reasoning, output),
                        None => (p.reasoning, Seq::empty()),
                    },
                    usage_of(field_of(r, "usage"@)),
                ),
                None => ((p.reasoning, Seq::empty()), p.usage),
            };
            let middle = ParserView { usage, reasoning: thoughts.0, ..p };
            let (status, reason) = match response {
                Some(r) => (
                    text_field(r, "status"@),
                    inner_text(r, "incomplete_details"@, "reason"@),
                ),
                None => (None, None),
            };
            end_is_held(middle, status, reason, item_id);
            let rest = after_end(middle, status, reason).1;
            still_holds(thoughts.1, rest, item_id);
            assert(response is None ==> items == rest);
        }
    }
}

proof fn end_is_held(
    p: ParserView,
    status: Option<Seq<char>>,
    reason: Option<Seq<char>>,
    item_id: Seq<char>,
)
    ensures
        after_end(p, status, reason).0.emitted_tools.contains(item_id) ==> p.emitted_tools.contains(
            item_id,
        ) || holds_call(after_end(p, status, reason).1, item_id),
{
    if !p.emitted_terminal {
        let (q, items) = after_end(p, status, reason);
        drained_are_held(p.tools, p.emitted_tools, item_id);
        let thoughts = reasoning_events(p.reasoning, None);
        let calls = drained(p.tools, p.emitted_tools).1;
        let tail = items.skip((thoughts.len() + calls.len()) as int);
        still_holds(thoughts, calls, item_id);
        still_holds(thoughts + calls, tail, item_id);
        assert(items =~= thoughts + calls + tail);
    }
}

/// A call counts as handed out only where it was: whatever the transport
/// delivered, the items of a stream hold every call that the stream remembers.
pub proof fn remembered_calls_were_handed_out(pulls: Seq<SsePullView>, item_id: Seq<char>)
    ensures
        ({
            let stream = pulled_all(StreamView::fresh(), pulls);
            stream.parser.emitted_tools.contains(item_id) ==> holds_call(stream.outbox, item_id)
        }),
    decreases pulls.len(),
{
    if pulls.len() > 0 {
        remembered_calls_were_handed_out(pulls.drop_last(), item_id);
        let before = pulled_all(StreamView::fresh(), pulls.drop_last());
        let after = before.after_pull(pulls.last());
        end_is_held(before.parser, None, None, item_id);
        match pulls.last() {
            SsePullView::Data(data) => {
                match json_parsed(trimmed(data)) {
                    Ok(value) => {
                        marked_as_handed_out(before.parser, value, item_id);
                        still_holds(before.outbox, after_event(before.parser, value).1, item_id);
                    },
                    Err(_) => {},
                }
            },
            SsePullView::Failed(_) => {
                let more = seq![after.outbox.last()];
                still_holds(before.outbox, more, item_id);
                assert(before.outbox + more =~= after.outbox);
            },
            SsePullView::Closed => {},
        }
        still_holds(before.outbox, after_end(before.parser, None, None).1, item_id);
    }
}

/// Every call that a stream completes is handed out: once the event that ends
/// its item came, the items of the stream hold it.
pub proof fn completed_calls_are_handed_out(
    pulls: Seq<SsePullView>,
    data: Seq<char>,
    v: JsonView,
    item: JsonView,
    item_id: Seq<char>,
)
    requires
        trimmed(data).len() > 0,
        trimmed(data) != "[DONE]"@,
        json_parsed(trimmed(data)) == Ok::<JsonView, Seq<char>>(v),
        ends_call(v, item, item_id),
        item_id.len() > 0,
        told_or_nothing(item, "call_id"@).len() > 0 || told_or_nothing(item, "name"@).len() > 0,
    ensures
        holds_call(
            pulled_all(StreamView::fresh(), pulls.push(SsePullView::Data(data))).outbox,
            item_id,
        ),
{
    let before = pulled_all(StreamView::fresh(), pulls);
    assert(pulls.push(SsePullView::Data(data)).drop_last() =~= pulls);
    let items = after_event(before.parser, v).1;
    if before.parser.emitted_tools.contains(item_id) {
        remembered_calls_were_handed_out(pulls, item_id);
    } else {
        let call = known_at_the_end(before.parser.tools, item, item_id);
        finished_calls_are_handed_out(before.parser, v, item, item_id);
        assert(is_call(items[0], call.call_id, call.item_id, call.name, call.arguments));
    }
    still_holds(before.outbox, items, item_id);
}

/// Whether calls under way are told apart by item ids of which none was handed
/// out yet.
pub open spec fn all_open(p: ParserView) -> bool {
    &&& forall|i: int|
        0 <= i < p.tools.len() ==> (#[trigger] p.tools[i]).item_id.len() > 0
            && !p.emitted_tools.contains(p.tools[i].item_id)
    &&& forall|i: int, j: int|
        0 <= i < j < p.tools.len() ==> (#[trigger] p.tools[i]).item_id != (
        #[trigger] p.tools[j]).item_id
}

proof fn drained_in_order(tools: Seq<PendingToolCallView>, emitted: Seq<Seq<char>>)
    requires
        forall|i: int|
            0 <= i < tools.len() ==> (#[trigger] tools[i]).item_id.len() > 0 && !emitted.contains(
                tools[i].item_id,
            ),
        forall|i: int, j: int|
            0 <= i < j < tools.len() ==> (#[trigger] tools[i]).item_id != (
            #[trigger] tools[j]).item_id,
    ensures
        drained(tools, emitted).1.len() == tools.len(),
        forall|i: int|
            0 <= i < tools.len() ==> #[trigger] drained(tools, emitted).1[i] == tool_event(
                tools[i],
            ),
        forall|id: Seq<char>|
            #[trigger] drained(tools, emitted).0.contains(id) ==> emitted.contains(id) || exists|
                i: int,
            |
                0 <= i < tools.len() && (#[trigger] tools[i]).item_id == id,
    decreases tools.len(),
{
    if tools.len() > 0 {
        let before = tools.drop_last();
        assert(forall|i: int| 0 <= i < before.len() ==> #[trigger] before[i] == tools[i]);
        drained_in_order(before, emitted);
        let ids = drained(before, emitted).0;
        let last = tools[tools.len() - 1];
        assert(!emitted.contains(last.item_id));
        assert(!ids.contains(last.item_id));
        let after = drained(tools, emitted).0;
        assert(after == ids.push(last.item_id));
        assert forall|id: Seq<char>| #[trigger] after.contains(id) implies emitted.contains(id)
            || exists|i: int| 0 <= i < tools.len() && (#[trigger] tools[i]).item_id == id by {
            let k = choose|k: int| 0 <= k < after.len() && after[k] == id;
            if k < ids.len() {
                assert(ids[k] == id);
                assert(ids.contains(id));
                if !emitted.contains(id) {
                    let i = choose|i: int|
                        0 <= i < before.len() && (#[trigger] before[i]).item_id == id;
                    assert(tools[i].item_id == id);
                }
            } else {
                assert(tools[tools.len() - 1].item_id == id);
            }
        }
        assert forall|i: int| 0 <= i < tools.len() implies #[trigger] drained(tools, emitted).1[i]
            == tool_event(tools[i]) by {
            if i < before.len() {
                assert(drained(before, emitted).1[i] == tool_event(before[i]));
            }
        }
    }
}

/// The end of a stream hands out the calls that are still under way, each as it
/// was gathered and in the order in which they were first heard of, and behind
/// them the token counts, the reason and the end mark: a call goes before
/// everything else, then an answer that was cut off at its limit.
pub proof fn the_end_hands_out_open_calls(
    p: ParserView,
    status: Option<Seq<char>>,
    incomplete_reason: Option<Seq<char>>,
)
    requires
        !p.emitted_terminal,
        all_open(p),
    ensures
        ({
            let (q, items) = after_end(p, status, incomplete_reason);
            let n = items.len();
            let first = n - 3 - p.tools.len();
            &&& first >= 0
            &&& forall|i: int|
                0 <= i < p.tools.len() ==> is_call(
                    #[trigger] items[first + i],
                    p.tools[i].call_id,
                    p.tools[i].item_id,
                    p.tools[i].name,
                    p.tools[i].arguments,
                )
            &&& items[n - 3] == Ok::<StreamEventView, ProviderErrorView>(
                StreamEventView::Usage(p.usage),
            )
            &&& items[n - 2] == Ok::<StreamEventView, ProviderErrorView>(
                StreamEventView::MessageDelta {
                    stop_reason: if p.saw_tool_use || p.tools.len() > 0 {
                        StopReason::ToolUse
                    } else if status == Some("incomplete"@) && incomplete_reason == Some(
                        "max_output_tokens"@,
                    ) {
                        StopReason::MaxTokens
                    } else {
                        StopReason::EndTurn
                    },
                },
            )
            &&& items[n - 1] == Ok::<StreamEventView, ProviderErrorView>(StreamEventView::Done)
            &&& q.emitted_terminal
            &&& q.tools.len() == 0
        }),
{
    drained_in_order(p.tools, p.emitted_tools);
    let (q, items) = after_end(p, status, incomplete_reason);
    let first = items.len() - 3 - p.tools.len();
    assert forall|i: int| 0 <= i < p.tools.len() implies is_call(
        #[trigger] items[first + i],
        p.tools[i].call_id,
        p.tools[i].item_id,
        p.tools[i].name,
        p.tools[i].arguments,
    ) by {
        tool_event_is_call(p.tools[i]);
        assert(items[first + i] == drained(p.tools, p.emitted_tools).1[i]);
    }
}

/// Whether a count is the one that a value reports in a field, its low 32 bits
/// where it is larger, or none where the field holds no count.
pub open spec fn counts(reported: JsonView, key: Seq<char>, count: u32) -> bool {
    count == match number_at(reported, key) {
        Some(n) => n % 0x1_0000_0000,
        None => 0,
    }
}

/// Whether token counts are those that an answer reports.
pub open spec fn counts_as_reported(response: JsonView, usage: Usage) -> bool {
    let reported = value_at(response, "usage"@);
    &&& counts(reported, "input_tokens"@, usage.input_tokens)
    &&& counts(reported, "output_tokens"@, usage.output_tokens)
    &&& counts(
        value_at(reported, "input_tokens_details"@),
        "cached_tokens"@,
        usage.cache_read_input_tokens,
    )
    &&& usage.cache_creation_input_tokens == 0
}

/// Why an answer ended, by what it reports and whether it holds a call: a call
/// goes before everything else, then an answer that was cut off at its limit.
pub open spec fn ended_because(response: JsonView, called: bool) -> StopReason {
    if called {
        StopReason::ToolUse
    } else if told(response, "status"@) == Some("incomplete"@) && told(
        value_at(response, "incomplete_details"@),
        "reason"@,
    ) == Some("max_output_tokens"@) {
        StopReason::MaxTokens
    } else {
        StopReason::EndTurn
    }
}

/// The event that carries the complete answer ends the stream with the token
/// counts of that answer, the reason that it reports and the end mark. Where
/// the end was reported before, it hands out no second one.
pub proof fn complete_answers_end_the_stream(p: ParserView, v: JsonView, response: JsonView)
    requires
        is_event(v, "response.completed"@) || is_event(v, "response.incomplete"@),
        has(v, "response"@, response),
    ensures
        ({
            let (q, items, over) = after_event(p, v);
            let n = items.len();
            &&& over
            &&& q.emitted_terminal
            &&& !p.emitted_terminal ==> {
                &&& n >= 3
                &&& match items[n - 3] {
                    Ok(StreamEventView::Usage(usage)) => counts_as_reported(response, usage),
                    _ => false,
                }
                &&& items[n - 2] == Ok::<StreamEventView, ProviderErrorView>(
                    StreamEventView::MessageDelta {
                        stop_reason: ended_because(response, q.saw_tool_use),
                    },
                )
                &&& items[n - 1] == Ok::<StreamEventView, ProviderErrorView>(StreamEventView::Done)
            }
        }),
{
    kinds_apart();
}

/// Whether a value is an object with such a field.
pub open spec fn mentions(j: JsonView, key: Seq<char>) -> bool {
    match j {
        JsonView::Object(fields) => fields.contains_key(key),
        _ => false,
    }
}

/// What a failure says of itself: the message of the answer's error, or else
/// that of the event's error, or else the event's own.
pub open spec fn failure_told(v: JsonView) -> Seq<char> {
    let of_answer = value_at(value_at(v, "response"@), "error"@);
    let of_event = value_at(v, "error"@);
    let source = if mentions(of_answer, "message"@) {
        of_answer
    } else if mentions(of_event, "message"@) {
        of_event
    } else {
        v
    };
    match told(source, "message"@) {
        Some(message) => message,
        None => "OpenAI Responses stream failed"@,
    }
}

/// A failure that the provider reports is handed out in its own words, as one
/// that is not worth another try, and ends the stream. A failed answer reports
/// no other end.
pub proof fn failures_are_handed_out(p: ParserView, v: JsonView)
    requires
        is_event(v, "response.failed"@) || is_event(v, "error"@) || is_event(
            v,
            "response.error"@,
        ),
    ensures
        ({
            let (q, items, over) = after_event(p, v);
            &&& over
            &&& items == seq![
                Err::<StreamEventView, ProviderErrorView>(
                    ProviderErrorView::Api {
                        status: 500,
                        message: failure_told(v),
                        retryable: false,
                    },
                ),
            ]
            &&& is_event(v, "response.failed"@) ==> q.emitted_terminal
        }),
{
    kinds_apart();
}

/// An event of any other kind changes nothing and hands nothing out.
pub proof fn other_events_are_passed_over(p: ParserView, v: JsonView, kind: Seq<char>)
    requires
        is_event(v, kind),
        kind != "response.output_text.delta"@,
        kind != "response.reasoning_summary_text.delta"@,
        kind != "response.reasoning_summary_text.done"@,
        kind != "response.reasoning_summary_part.done"@,
        kind != "response.output_item.added"@,
        kind != "response.function_call_arguments.delta"@,
        kind != "response.function_call_arguments.done"@,
        kind != "response.output_item.done"@,
        kind != "response.completed"@,
        kind != "response.incomplete"@,
        kind != "response.failed"@,
        kind != "error"@,
        kind != "response.error"@,
    ensures
        after_event(p, v).0 == p,
        after_event(p, v).1.len() == 0,
        !after_event(p, v).2,
{
}

/// What a stream makes of a delivery: what it handed out before stays, in
/// front; a failed read is reported in its own words and the stream goes on;
/// the end of the input and its mark end the stream; what is no JSON is passed
/// over, and every event is taken.
pub proof fn deliveries_are_taken(stream: StreamView, pull: SsePullView)
    ensures
        ({
            let next = stream.after_pull(pull);
            &&& stream.outbox.is_prefix_of(next.outbox)
            &&& stream.done ==> next.done
            &&& match pull {
                SsePullView::Failed(reason) => {
                    &&& next.outbox == stream.outbox.push(
                        Err(ProviderErrorView::Other("SSE read error: "@ + reason)),
                    )
                    &&& next.parser == stream.parser
                    &&& next.done == stream.done
                },
                SsePullView::Closed => {
                    &&& next.done
                    &&& next.parser.emitted_terminal
                    &&& !stream.parser.emitted_terminal ==> next.outbox.last() == Ok::<
                        StreamEventView,
                        ProviderErrorView,
                    >(StreamEventView::Done)
                    &&& stream.parser.emitted_terminal ==> next.outbox == stream.outbox
                },
                SsePullView::Data(data) => {
                    let text = trimmed(data);
                    if text == "[DONE]"@ {
                        next == stream.after_pull(SsePullView::Closed)
                    } else if text.len() == 0 || json_parsed(text) is Err {
                        next == stream
                    } else {
                        let (parser, items, over) = after_event(
                            stream.parser,
                            json_parsed(text)->Ok_0,
                        );
                        &&& next.parser == parser
                        &&& next.outbox == stream.outbox + items
                        &&& next.done == (stream.done || over)
                    }
                },
            }
        }),
{
    let items = after_end(stream.parser, None, None).1;
    if !stream.parser.emitted_terminal {
        assert(items.last() == Ok::<StreamEventView, ProviderErrorView>(StreamEventView::Done));
        assert((stream.outbox + items).last() == items.last());
    } else {
        assert(stream.outbox + items =~= stream.outbox);
    }
}

/// A call that was handed out before is not handed out again when its item is
/// done, and nothing changes.
pub proof fn finished_calls_are_not_repeated(
    p: ParserView,
    v: JsonView,
    item: JsonView,
    item_id: Seq<char>,
)
    requires
        ends_call(v, item, item_id),
        item_id.len() > 0,
        p.emitted_tools.contains(item_id),
    ensures
        after_event(p, v).0 == p,
        after_event(p, v).1.len() == 0,
        !after_event(p, v).2,
{
    kinds_apart();
}

/// A finished item that is neither a call nor reasoning hands nothing out: its
/// text came in pieces before.
pub proof fn other_items_are_passed_over(
    p: ParserView,
    v: JsonView,
    item: JsonView,
    kind: Seq<char>,
)
    requires
        is_event(v, "response.output_item.done"@) || is_event(v, "response.output_item.added"@),
        has(v, "item"@, item),
        has(item, "type"@, JsonView::Text(kind)),
        kind != "function_call"@,
        kind != "reasoning"@ || is_event(v, "response.output_item.added"@),
    ensures
        after_event(p, v).0 == p,
        after_event(p, v).1.len() == 0,
        !after_event(p, v).2,
{
    kinds_apart();
}

proof fn drained_are_counted(tools: Seq<PendingToolCallView>, emitted: Seq<Seq<char>>)
    requires
        forall|i: int| 0 <= i < tools.len() ==> (#[trigger] tools[i]).item_id.len() > 0,
    ensures
        drained(tools, emitted).1.len() == drained(tools, emitted).0.len() - emitted.len(),
    decreases tools.len(),
{
    if tools.len() > 0 {
        let rest = tools.drop_last();
        assert(forall|i: int| 0 <= i < rest.len() ==> #[trigger] rest[i] == tools[i]);
        drained_are_counted(rest, emitted);
        assert(tools[tools.len() - 1].item_id.len() > 0);
    }
}

/// Every call that the end hands out is remembered, so none of them is one that
/// was handed out before.
pub proof fn the_end_repeats_no_call(
    p: ParserView,
    status: Option<Seq<char>>,
    incomplete_reason: Option<Seq<char>>,
)
    requires
        !p.emitted_terminal,
        p.emitted_tools.no_duplicates(),
        forall|i: int| 0 <= i < p.tools.len() ==> (#[trigger] p.tools[i]).item_id.len() > 0,
    ensures
        ({
            let (q, items) = after_end(p, status, incomplete_reason);
            &&& count(items, call_item()) == q.emitted_tools.len() - p.emitted_tools.len()
            &&& q.emitted_tools.no_duplicates()
            &&& p.emitted_tools.is_prefix_of(q.emitted_tools)
        }),
{
    drained_are_counted(p.tools, p.emitted_tools);
    end_calls_counted(p, status, incomplete_reason);
    drained_once(p.tools, p.emitted_tools);
}

/// An event that does not say what it is, or which call or part it speaks of,
/// changes nothing and hands nothing out.
pub proof fn vague_events_are_passed_over(p: ParserView, v: JsonView)
    requires
        told(v, "type"@) is None || (told(v, "item_id"@) is None && (is_event(
            v,
            "response.function_call_arguments.delta"@,
        ) || is_event(v, "response.function_call_arguments.done"@) || is_event(
            v,
            "response.reasoning_summary_text.delta"@,
        ) || is_event(v, "response.reasoning_summary_text.done"@) || is_event(
            v,
            "response.reasoning_summary_part.done"@,
        ))),
    ensures
        after_event(p, v).0 == p,
        after_event(p, v).1.len() == 0,
        !after_event(p, v).2,
{
    kinds_apart();
}

} // verus!
