//! What holds of every Responses event stream.
use crate::error::ProviderErrorView;
use crate::json::{field_of, json_parsed, JsonView};
use crate::message::ThinkingMetadataView;
use crate::providers::response::{
    inner_text, items_field, stop_reason_of, text_field, text_field_or_empty, u64_field, usage_of,
    PendingToolCallView,
};
use crate::providers::sse::{
    after_end, after_event, after_output, after_reasoning_item, already_emitted, drained,
    event_key, marked, part_at, part_before, part_slot, reasoning_event, reasoning_events,
    selected, tool_event, with_emitted, with_part, with_summary, ItemView, ParserView,
    ReasoningView, SsePullView, StreamView,
};
use crate::stream::StreamEventView;
use crate::text::{text_le, text_le_antisymmetric, text_le_total, text_le_transitive, trimmed};
use vstd::prelude::*;

verus! {

/// The stream behind several deliveries of the transport, with every item
/// that it handed out.
pub open spec fn pulled_all(stream: StreamView, pulls: Seq<SsePullView>) -> StreamView
    decreases pulls.len(),
{
    if pulls.len() == 0 {
        stream
    } else {
        pulled_all(stream, pulls.drop_last()).after_pull(pulls.last())
    }
}

/// How many items are of a kind.
pub open spec fn count(items: Seq<ItemView>, kind: spec_fn(ItemView) -> bool) -> nat
    decreases items.len(),
{
    if items.len() == 0 {
        0
    } else {
        count(items.drop_last(), kind) + if kind(items.last()) {
            1nat
        } else {
            0nat
        }
    }
}

proof fn count_concat(a: Seq<ItemView>, b: Seq<ItemView>, kind: spec_fn(ItemView) -> bool)
    ensures
        count(a + b, kind) == count(a, kind) + count(b, kind),
    decreases b.len(),
{
    if b.len() == 0 {
        assert(a + b =~= a);
    } else {
        assert((a + b).drop_last() =~= a + b.drop_last());
        count_concat(a, b.drop_last(), kind);
    }
}

proof fn count_push(a: Seq<ItemView>, item: ItemView, kind: spec_fn(ItemView) -> bool)
    ensures
        count(a.push(item), kind) == count(a, kind) + if kind(item) {
            1nat
        } else {
            0nat
        },
{
    assert(a.push(item).drop_last() =~= a);
}

/// The end mark.
pub open spec fn end_mark() -> spec_fn(ItemView) -> bool {
    |item: ItemView| item == Ok::<StreamEventView, ProviderErrorView>(
        StreamEventView::Done,
    )
}

/// A thinking block for a part of a reasoning summary.
pub open spec fn thinking_of(item_id: Seq<char>, summary_index: u64) -> spec_fn(ItemView) -> bool {
    |item: ItemView|
        match item {
            Ok(StreamEventView::ThinkingBlock { metadata, .. }) => match metadata {
                ThinkingMetadataView::OpenAIResponses { item_id: id, summary_index: index, .. } => {
                    index == summary_index && id == if item_id.len() > 0 {
                        Some(item_id)
                    } else {
                        None
                    }
                },
                _ => false,
            },
            _ => false,
        }
}

proof fn thoughts_without_end(parts: Seq<ReasoningView>, item_id: Option<Seq<char>>)
    ensures
        count(reasoning_events(parts, item_id), end_mark()) == 0,
    decreases parts.len(),
{
    if parts.len() > 0 {
        thoughts_without_end(parts.drop_last(), item_id);
        count_push(
            reasoning_events(parts.drop_last(), item_id),
            reasoning_event(parts.last()),
            end_mark(),
        );
    }
}

proof fn calls_counted(
    tools: Seq<PendingToolCallView>,
    emitted: Seq<Seq<char>>,
    item_id: Seq<char>,
    summary_index: u64,
)
    ensures
        count(drained(tools, emitted).1, end_mark()) == 0,
        count(drained(tools, emitted).1, thinking_of(item_id, summary_index)) == 0,
    decreases tools.len(),
{
    if tools.len() > 0 {
        calls_counted(tools.drop_last(), emitted, item_id, summary_index);
        let (ids, events) = drained(tools.drop_last(), emitted);
        let event = tool_event(tools.last());
        count_push(events, event, end_mark());
        count_push(events, event, thinking_of(item_id, summary_index));
    }
}

proof fn output_without_end(parts: Seq<ReasoningView>, output: Seq<JsonView>)
    ensures
        count(after_output(parts, output).1, end_mark()) == 0,
    decreases output.len(),
{
    if output.len() > 0 {
        output_without_end(parts, output.drop_last());
        let (before, events) = after_output(parts, output.drop_last());
        if text_field(output.last(), "type"@) == Some("reasoning"@) {
            let (read, more) = after_reasoning_item(
                before,
                output.last(),
                Some((output.len() - 1) as u64),
            );
            item_without_end(before, output.last(), Some((output.len() - 1) as u64));
            count_concat(events, more, end_mark());
        }
    }
}

proof fn item_without_end(
    parts: Seq<ReasoningView>,
    item: JsonView,
    output_index: Option<u64>,
)
    ensures
        count(after_reasoning_item(parts, item, output_index).1, end_mark()) == 0,
{
    let read = match items_field(item, "summary"@) {
        Some(summary) => with_summary(parts, item, output_index, summary),
        None => parts,
    };
    thoughts_without_end(read, Some(text_field_or_empty(item, "id"@)));
}

proof fn end_marks_of_end(
    p: ParserView,
    status: Option<Seq<char>>,
    incomplete_reason: Option<Seq<char>>,
)
    ensures
        after_end(p, status, incomplete_reason).0.emitted_terminal,
        count(after_end(p, status, incomplete_reason).1, end_mark()) == if p.emitted_terminal {
            0nat
        } else {
            1nat
        },
{
    let (q, items) = after_end(p, status, incomplete_reason);
    if !p.emitted_terminal {
        let thoughts = reasoning_events(p.reasoning, None);
        let (ids, calls) = drained(p.tools, p.emitted_tools);
        let tail = items.skip((thoughts.len() + calls.len()) as int);
        thoughts_without_end(p.reasoning, None);
        calls_counted(p.tools, p.emitted_tools, Seq::empty(), 0);
        count_concat(thoughts, calls, end_mark());
        count_concat(thoughts + calls, tail, end_mark());
        assert(items =~= thoughts + calls + tail);
        reveal_with_fuel(count, 4);
        assert(tail.drop_last() =~= seq![tail[0], tail[1]]);
        assert(tail.drop_last().drop_last() =~= seq![tail[0]]);
        assert(tail.drop_last().drop_last().drop_last() =~= Seq::<ItemView>::empty());
    }
}

/// One event hands out the end mark only where it was not handed out before,
/// and then remembers it.
pub proof fn end_marks_of_event(p: ParserView, v: JsonView)
    ensures
        p.emitted_terminal ==> after_event(p, v).0.emitted_terminal,
        count(after_event(p, v).1, end_mark()) <= 1,
        count(after_event(p, v).1, end_mark()) == 1 ==> !p.emitted_terminal && after_event(
            p,
            v,
        ).0.emitted_terminal,
{
    reveal_with_fuel(count, 2);
    let (q, items, over) = after_event(p, v);
    let kind = text_field(v, "type"@);
    if kind == Some("response.output_item.done"@) {
        match field_of(v, "item"@) {
            Some(item) => {
                item_without_end(
                    p.reasoning,
                    item,
                    u64_field(v, "output_index"@),
                );
            },
            None => {},
        }
        single_or_none(items);
    } else if kind == Some("response.completed"@) || kind == Some("response.incomplete"@) {
        match field_of(v, "response"@) {
            Some(response) => {
                let read = match items_field(response, "output"@) {
                    Some(output) => after_output(p.reasoning, output),
                    None => (p.reasoning, Seq::empty()),
                };
                match items_field(response, "output"@) {
                    Some(output) => {
                        output_without_end(p.reasoning, output);
                    },
                    None => {},
                }
                let middle = ParserView {
                    usage: usage_of(
                        field_of(response, "usage"@),
                    ),
                    reasoning: read.0,
                    ..p
                };
                let status = text_field(response, "status"@);
                let reason = inner_text(
                    response,
                    "incomplete_details"@,
                    "reason"@,
                );
                end_marks_of_end(middle, status, reason);
                count_concat(read.1, after_end(middle, status, reason).1, end_mark());
            },
            None => {
                end_marks_of_end(p, None, None);
            },
        }
    } else {
        single_or_none(items);
    }
}

proof fn single_or_none(items: Seq<ItemView>)
    ensures
        items.len() == 0 ==> count(items, end_mark()) == 0,
        items.len() == 1 && !end_mark()(items[0]) ==> count(items, end_mark()) == 0,
{
    reveal_with_fuel(count, 2);
    if items.len() == 1 {
        assert(items.drop_last() =~= Seq::<ItemView>::empty());
    }
}

/// The end of a stream is reported at most once, whatever the transport
/// delivers.
pub proof fn end_is_reported_once(pulls: Seq<SsePullView>)
    ensures
        count(pulled_all(StreamView::fresh(), pulls).outbox, end_mark())
            <= if pulled_all(StreamView::fresh(), pulls).parser.emitted_terminal {
            1nat
        } else {
            0nat
        },
    decreases pulls.len(),
{
    if pulls.len() > 0 {
        end_is_reported_once(pulls.drop_last());
        let before = pulled_all(StreamView::fresh(), pulls.drop_last());
        match pulls.last() {
            SsePullView::Failed(reason) => {
                count_push(
                    before.outbox,
                    pulled_all(StreamView::fresh(), pulls).outbox.last(),
                    end_mark(),
                );
            },
            SsePullView::Closed => {
                end_marks_of_end(before.parser, None, None);
                count_concat(
                    before.outbox,
                    after_end(before.parser, None, None).1,
                    end_mark(),
                );
            },
            SsePullView::Data(data) => {
                let text = trimmed(data);
                if text == "[DONE]"@ {
                    end_marks_of_end(before.parser, None, None);
                    count_concat(
                        before.outbox,
                        after_end(before.parser, None, None).1,
                        end_mark(),
                    );
                } else if text.len() > 0 {
                    match json_parsed(text) {
                        Ok(value) => {
                            end_marks_of_event(before.parser, value);
                            count_concat(
                                before.outbox,
                                after_event(before.parser, value).1,
                                end_mark(),
                            );
                        },
                        Err(_) => {},
                    }
                }
            },
        }
    }
}

/// Pieces of a tool call are never handed out: the announcement, the pieces
/// and the end of its arguments hand out nothing.
pub proof fn calls_are_handed_out_whole(p: ParserView, v: JsonView)
    requires
        text_field(v, "type"@) == Some("response.function_call_arguments.delta"@) || text_field(
            v,
            "type"@,
        ) == Some("response.function_call_arguments.done"@) || text_field(v, "type"@) == Some(
            "response.output_item.added"@,
        ),
    ensures
        after_event(p, v).1.len() == 0,
        !after_event(p, v).2,
{
    literals_differ();
}

proof fn literals_differ()
    ensures
        "response.function_call_arguments.delta"@ != "response.output_text.delta"@,
        "response.function_call_arguments.delta"@ != "response.reasoning_summary_text.delta"@,
        "response.function_call_arguments.done"@ != "response.output_text.delta"@,
        "response.function_call_arguments.done"@ != "response.reasoning_summary_text.delta"@,
        "response.output_item.added"@ != "response.output_text.delta"@,
        "response.output_item.added"@ != "response.reasoning_summary_text.delta"@,
{
    reveal_strlit("response.function_call_arguments.delta");
    reveal_strlit("response.function_call_arguments.done");
    reveal_strlit("response.output_item.added");
    reveal_strlit("response.output_text.delta");
    reveal_strlit("response.reasoning_summary_text.delta");
    assert("response.output_item.added"@[9] == 'o');
    assert("response.output_text.delta"@[16] == 't');
    assert("response.output_item.added"@[16] == 'i');
    assert("response.function_call_arguments.delta"@[9] == 'f');
    assert("response.function_call_arguments.done"@[9] == 'f');
    assert("response.output_text.delta"@[9] == 'o');
    assert("response.reasoning_summary_text.delta"@[9] == 'r');
}

/// The ids of the calls that were handed out are distinct: no call is handed
/// out twice.
pub proof fn calls_are_handed_out_once(p: ParserView, v: JsonView)
    requires
        p.emitted_tools.no_duplicates(),
    ensures
        after_event(p, v).0.emitted_tools.no_duplicates(),
        p.emitted_tools.is_prefix_of(after_event(p, v).0.emitted_tools),
{
    let kind = text_field(v, "type"@);
    drained_once(p.tools, p.emitted_tools);
    match field_of(v, "item"@) {
        Some(item) => {
            let item_id = text_field_or_empty(item, "id"@);
            if !already_emitted(p.emitted_tools, item_id) {
                emitted_once(p.emitted_tools, item_id);
            }
        },
        None => {},
    }
}

proof fn emitted_once(emitted: Seq<Seq<char>>, item_id: Seq<char>)
    requires
        emitted.no_duplicates(),
        !already_emitted(emitted, item_id),
    ensures
        with_emitted(emitted, item_id).no_duplicates(),
        emitted.is_prefix_of(with_emitted(emitted, item_id)),
{
}

pub(crate) proof fn drained_once(tools: Seq<PendingToolCallView>, emitted: Seq<Seq<char>>)
    requires
        emitted.no_duplicates(),
    ensures
        drained(tools, emitted).0.no_duplicates(),
        emitted.is_prefix_of(drained(tools, emitted).0),
    decreases tools.len(),
{
    if tools.len() > 0 {
        drained_once(tools.drop_last(), emitted);
        let ids = drained(tools.drop_last(), emitted).0;
        if !already_emitted(ids, tools.last().item_id) {
            emitted_once(ids, tools.last().item_id);
        }
    }
}

/// Whether the parts are in order, each key once.
pub open spec fn parts_in_order(parts: Seq<ReasoningView>) -> bool {
    forall|i: int, j: int|
        0 <= i < j < parts.len() ==> part_before(
            #[trigger] parts[i],
            (#[trigger] parts[j]).item_id,
            parts[j].summary_index,
        )
}

/// Whether the part with a key was handed out.
pub open spec fn handed_out(parts: Seq<ReasoningView>, item_id: Seq<char>, index: u64) -> bool {
    exists|i: int|
        0 <= i < parts.len() && (#[trigger] parts[i]).item_id == item_id
            && parts[i].summary_index == index && parts[i].emitted
}

/// Whether the items hand out the part with a key at most once, and only where
/// it was not handed out before; the parts stay in order and remember it.
pub open spec fn hands_out_once(
    before: Seq<ReasoningView>,
    items: Seq<ItemView>,
    after: Seq<ReasoningView>,
    item_id: Seq<char>,
    index: u64,
) -> bool {
    &&& parts_in_order(after)
    &&& handed_out(before, item_id, index) ==> handed_out(after, item_id, index)
    &&& count(items, thinking_of(item_id, index)) <= 1
    &&& count(items, thinking_of(item_id, index)) == 1 ==> !handed_out(before, item_id, index)
        && handed_out(after, item_id, index)
}

proof fn hands_out_in_turn(
    a: Seq<ReasoningView>,
    first: Seq<ItemView>,
    b: Seq<ReasoningView>,
    second: Seq<ItemView>,
    c: Seq<ReasoningView>,
    item_id: Seq<char>,
    index: u64,
)
    requires
        hands_out_once(a, first, b, item_id, index),
        hands_out_once(b, second, c, item_id, index),
    ensures
        hands_out_once(a, first + second, c, item_id, index),
{
    count_concat(first, second, thinking_of(item_id, index));
}

proof fn key_order_transitive(a: ReasoningView, b: ReasoningView, item_id: Seq<char>, index: u64)
    requires
        part_before(a, b.item_id, b.summary_index),
        part_before(b, item_id, index),
    ensures
        part_before(a, item_id, index),
{
    if a.item_id != b.item_id && b.item_id != item_id {
        text_le_transitive(a.item_id, b.item_id, item_id);
        if a.item_id == item_id {
            text_le_antisymmetric(a.item_id, b.item_id);
        }
    }
}

pub(crate) proof fn slot_splits(parts: Seq<ReasoningView>, item_id: Seq<char>, index: u64)
    requires
        parts_in_order(parts),
    ensures
        0 <= part_slot(parts, item_id, index) <= parts.len(),
        forall|i: int|
            0 <= i < part_slot(parts, item_id, index) ==> part_before(
                #[trigger] parts[i],
                item_id,
                index,
            ),
        part_slot(parts, item_id, index) < parts.len() ==> !part_before(
            parts[part_slot(parts, item_id, index)],
            item_id,
            index,
        ),
    decreases parts.len(),
{
    if parts.len() > 0 && part_before(parts[0], item_id, index) {
        let rest = parts.drop_first();
        assert forall|i: int, j: int| 0 <= i < j < rest.len() implies part_before(
            #[trigger] rest[i],
            (#[trigger] rest[j]).item_id,
            rest[j].summary_index,
        ) by {
            assert(rest[i] == parts[i + 1]);
            assert(rest[j] == parts[j + 1]);
        }
        slot_splits(rest, item_id, index);
        let slot = part_slot(parts, item_id, index);
        assert forall|i: int| 0 <= i < slot implies part_before(
            #[trigger] parts[i],
            item_id,
            index,
        ) by {
            if i > 0 {
                assert(parts[i] == rest[i - 1]);
            }
        }
        if slot < parts.len() {
            assert(parts[slot] == rest[slot - 1]);
        }
    }
}

pub(crate) proof fn entering_keeps(
    parts: Seq<ReasoningView>,
    item_id: Seq<char>,
    index: u64,
    output_index: Option<u64>,
    other_id: Seq<char>,
    other_index: u64,
)
    requires
        parts_in_order(parts),
    ensures
        ({
            let out = with_part(parts, item_id, index, output_index);
            let slot = part_slot(parts, item_id, index);
            &&& parts_in_order(out)
            &&& 0 <= slot < out.len()
            &&& out[slot].item_id == item_id
            &&& out[slot].summary_index == index
            &&& handed_out(out, other_id, other_index) == handed_out(parts, other_id, other_index)
        }),
{
    slot_splits(parts, item_id, index);
    let slot = part_slot(parts, item_id, index);
    let out = with_part(parts, item_id, index, output_index);
    if !part_at(parts, slot, item_id, index) {
        let fresh = out[slot];
        assert forall|k: int| slot <= k < parts.len() implies part_before(
            fresh,
            (#[trigger] parts[k]).item_id,
            parts[k].summary_index,
        ) by {
            let at = parts[slot];
            if at.item_id != item_id {
                text_le_total(at.item_id, item_id);
            }
            if k > slot {
                assert(part_before(parts[slot], parts[k].item_id, parts[k].summary_index));
                key_order_transitive(fresh, at, parts[k].item_id, parts[k].summary_index);
            }
        }
        assert forall|i: int, j: int| 0 <= i < j < out.len() implies part_before(
            #[trigger] out[i],
            (#[trigger] out[j]).item_id,
            out[j].summary_index,
        ) by {
            if i < slot {
                assert(out[i] == parts[i]);
                if j < slot {
                    assert(out[j] == parts[j]);
                } else if j > slot {
                    assert(out[j] == parts[j - 1]);
                }
            } else if i == slot {
                assert(out[j] == parts[j - 1]);
            } else {
                assert(out[i] == parts[i - 1]);
                assert(out[j] == parts[j - 1]);
            }
        }
        if handed_out(parts, other_id, other_index) {
            let i = choose|i: int|
                0 <= i < parts.len() && (#[trigger] parts[i]).item_id == other_id
                    && parts[i].summary_index == other_index && parts[i].emitted;
            if i < slot {
                assert(out[i] == parts[i]);
            } else {
                assert(out[i + 1] == parts[i]);
            }
        }
        if handed_out(out, other_id, other_index) {
            let i = choose|i: int|
                0 <= i < out.len() && (#[trigger] out[i]).item_id == other_id
                    && out[i].summary_index == other_index && out[i].emitted;
            if i < slot {
                assert(parts[i] == out[i]);
            } else {
                assert(i != slot);
                assert(parts[i - 1] == out[i]);
            }
        }
    }
}

pub(crate) proof fn updating_keeps(
    parts: Seq<ReasoningView>,
    slot: int,
    part: ReasoningView,
    other_id: Seq<char>,
    other_index: u64,
)
    requires
        parts_in_order(parts),
        0 <= slot < parts.len(),
        part.item_id == parts[slot].item_id,
        part.summary_index == parts[slot].summary_index,
        part.emitted == parts[slot].emitted,
    ensures
        parts_in_order(parts.update(slot, part)),
        handed_out(parts.update(slot, part), other_id, other_index) == handed_out(
            parts,
            other_id,
            other_index,
        ),
{
    let out = parts.update(slot, part);
    assert forall|i: int, j: int| 0 <= i < j < out.len() implies part_before(
        #[trigger] out[i],
        (#[trigger] out[j]).item_id,
        out[j].summary_index,
    ) by {
        assert(part_before(parts[i], parts[j].item_id, parts[j].summary_index));
    }
    if handed_out(parts, other_id, other_index) {
        let i = choose|i: int|
            0 <= i < parts.len() && (#[trigger] parts[i]).item_id == other_id
                && parts[i].summary_index == other_index && parts[i].emitted;
        assert(out[i].item_id == other_id && out[i].emitted);
    }
    if handed_out(out, other_id, other_index) {
        let i = choose|i: int|
            0 <= i < out.len() && (#[trigger] out[i]).item_id == other_id && out[i].summary_index
                == other_index && out[i].emitted;
        assert(parts[i].item_id == other_id && parts[i].emitted);
    }
}

proof fn thoughts_counted(
    parts: Seq<ReasoningView>,
    chosen: Option<Seq<char>>,
    item_id: Seq<char>,
    index: u64,
)
    requires
        parts_in_order(parts),
    ensures
        count(reasoning_events(parts, chosen), thinking_of(item_id, index)) <= 1,
        count(reasoning_events(parts, chosen), thinking_of(item_id, index)) == 1 ==> exists|i: int|
            0 <= i < parts.len() && (#[trigger] parts[i]).item_id == item_id
                && parts[i].summary_index == index && selected(parts[i], chosen)
                && !parts[i].emitted,
    decreases parts.len(),
{
    if parts.len() > 0 {
        let rest = parts.drop_last();
        let last = parts.last();
        assert forall|i: int, j: int| 0 <= i < j < rest.len() implies part_before(
            #[trigger] rest[i],
            (#[trigger] rest[j]).item_id,
            rest[j].summary_index,
        ) by {
            assert(rest[i] == parts[i] && rest[j] == parts[j]);
        }
        thoughts_counted(rest, chosen, item_id, index);
        let kind = thinking_of(item_id, index);
        let before = reasoning_events(rest, chosen);
        count_push(before, reasoning_event(last), kind);
        if count(before, kind) == 1 {
            let i = choose|i: int|
                0 <= i < rest.len() && (#[trigger] rest[i]).item_id == item_id
                    && rest[i].summary_index == index && selected(rest[i], chosen)
                    && !rest[i].emitted;
            assert(parts[i] == rest[i]);
            assert(part_before(
                parts[i],
                parts[parts.len() - 1].item_id,
                parts[parts.len() - 1].summary_index,
            ));
            if kind(reasoning_event(last)) {
                assert(last.item_id =~= item_id);
            }
        } else if selected(last, chosen) && !last.emitted && kind(reasoning_event(last)) {
            assert(last.item_id =~= item_id);
            assert(parts[parts.len() - 1] == last);
        }
    }
}

proof fn emitting_once(
    parts: Seq<ReasoningView>,
    chosen: Option<Seq<char>>,
    item_id: Seq<char>,
    index: u64,
)
    requires
        parts_in_order(parts),
    ensures
        hands_out_once(
            parts,
            reasoning_events(parts, chosen),
            marked(parts, chosen),
            item_id,
            index,
        ),
{
    thoughts_counted(parts, chosen, item_id, index);
    let out = marked(parts, chosen);
    assert forall|i: int, j: int| 0 <= i < j < out.len() implies part_before(
        #[trigger] out[i],
        (#[trigger] out[j]).item_id,
        out[j].summary_index,
    ) by {
        assert(part_before(parts[i], parts[j].item_id, parts[j].summary_index));
    }
    if handed_out(parts, item_id, index) {
        let i = choose|i: int|
            0 <= i < parts.len() && (#[trigger] parts[i]).item_id == item_id
                && parts[i].summary_index == index && parts[i].emitted;
        assert(out[i].item_id == item_id && out[i].emitted);
    }
    if count(reasoning_events(parts, chosen), thinking_of(item_id, index)) == 1 {
        let i = choose|i: int|
            0 <= i < parts.len() && (#[trigger] parts[i]).item_id == item_id
                && parts[i].summary_index == index && selected(parts[i], chosen)
                && !parts[i].emitted;
        assert(out[i].item_id == item_id && out[i].emitted);
        if handed_out(parts, item_id, index) {
            let k = choose|k: int|
                0 <= k < parts.len() && (#[trigger] parts[k]).item_id == item_id
                    && parts[k].summary_index == index && parts[k].emitted;
            if k < i {
                assert(part_before(parts[k], parts[i].item_id, parts[i].summary_index));
            } else if i < k {
                assert(part_before(parts[i], parts[k].item_id, parts[k].summary_index));
            }
        }
    }
}

pub(crate) proof fn summary_keeps(
    parts: Seq<ReasoningView>,
    item: JsonView,
    output_index: Option<u64>,
    summary: Seq<JsonView>,
    item_id: Seq<char>,
    index: u64,
)
    requires
        parts_in_order(parts),
    ensures
        parts_in_order(with_summary(parts, item, output_index, summary)),
        handed_out(with_summary(parts, item, output_index, summary), item_id, index)
            == handed_out(parts, item_id, index),
    decreases summary.len(),
{
    if summary.len() > 0 {
        summary_keeps(parts, item, output_index, summary.drop_last(), item_id, index);
        let before = with_summary(parts, item, output_index, summary.drop_last());
        let id = text_field_or_empty(item, "id"@);
        let at = (summary.len() - 1) as u64;
        entering_keeps(before, id, at, output_index, item_id, index);
        let entered = with_part(before, id, at, output_index);
        let slot = part_slot(before, id, at);
        updating_keeps(
            entered,
            slot,
            with_summary(parts, item, output_index, summary)[slot],
            item_id,
            index,
        );
    }
}

proof fn reasoning_item_once(
    parts: Seq<ReasoningView>,
    item: JsonView,
    output_index: Option<u64>,
    item_id: Seq<char>,
    index: u64,
)
    requires
        parts_in_order(parts),
    ensures
        hands_out_once(
            parts,
            after_reasoning_item(parts, item, output_index).1,
            after_reasoning_item(parts, item, output_index).0,
            item_id,
            index,
        ),
{
    let read = match items_field(item, "summary"@) {
        Some(summary) => {
            summary_keeps(parts, item, output_index, summary, item_id, index);
            with_summary(parts, item, output_index, summary)
        },
        None => parts,
    };
    emitting_once(read, Some(text_field_or_empty(item, "id"@)), item_id, index);
}

pub(crate) proof fn output_once(
    parts: Seq<ReasoningView>,
    output: Seq<JsonView>,
    item_id: Seq<char>,
    index: u64,
)
    requires
        parts_in_order(parts),
    ensures
        hands_out_once(
            parts,
            after_output(parts, output).1,
            after_output(parts, output).0,
            item_id,
            index,
        ),
    decreases output.len(),
{
    if output.len() > 0 {
        output_once(parts, output.drop_last(), item_id, index);
        let (before, events) = after_output(parts, output.drop_last());
        if text_field(output.last(), "type"@) == Some("reasoning"@) {
            let at = Some((output.len() - 1) as u64);
            reasoning_item_once(before, output.last(), at, item_id, index);
            let (read, more) = after_reasoning_item(before, output.last(), at);
            hands_out_in_turn(parts, events, before, more, read, item_id, index);
        }
    }
}

proof fn ending_once(
    p: ParserView,
    status: Option<Seq<char>>,
    incomplete_reason: Option<Seq<char>>,
    item_id: Seq<char>,
    index: u64,
)
    requires
        parts_in_order(p.reasoning),
    ensures
        hands_out_once(
            p.reasoning,
            after_end(p, status, incomplete_reason).1,
            after_end(p, status, incomplete_reason).0.reasoning,
            item_id,
            index,
        ),
{
    let (q, items) = after_end(p, status, incomplete_reason);
    if !p.emitted_terminal {
        let thoughts = reasoning_events(p.reasoning, None);
        let (ids, calls) = drained(p.tools, p.emitted_tools);
        let kind = thinking_of(item_id, index);
        let tail = items.skip((thoughts.len() + calls.len()) as int);
        emitting_once(p.reasoning, None, item_id, index);
        calls_counted(p.tools, p.emitted_tools, item_id, index);
        count_concat(thoughts, calls, kind);
        count_concat(thoughts + calls, tail, kind);
        assert(items =~= thoughts + calls + tail);
        reveal_with_fuel(count, 4);
        assert(tail.drop_last() =~= seq![tail[0], tail[1]]);
        assert(tail.drop_last().drop_last() =~= seq![tail[0]]);
        assert(tail.drop_last().drop_last().drop_last() =~= Seq::<ItemView>::empty());
    }
}

/// One event hands out each summary part at most once, and only where it was
/// not handed out before.
pub proof fn thoughts_of_event(p: ParserView, v: JsonView, item_id: Seq<char>, index: u64)
    requires
        parts_in_order(p.reasoning),
    ensures
        hands_out_once(
            p.reasoning,
            after_event(p, v).1,
            after_event(p, v).0.reasoning,
            item_id,
            index,
        ),
{
    reveal_with_fuel(count, 2);
    let (q, items, over) = after_event(p, v);
    let kind = text_field(v, "type"@);
    if items.len() == 1 {
        assert(items.drop_last() =~= Seq::<ItemView>::empty());
    }
    if kind == Some("response.output_text.delta"@) {
    } else if kind == Some("response.reasoning_summary_text.delta"@) {
        match event_key(v) {
            Some((id, at)) => {
                let output_index = u64_field(v, "output_index"@);
                entering_keeps(p.reasoning, id, at, output_index, item_id, index);
                let entered = with_part(p.reasoning, id, at, output_index);
                let slot = part_slot(p.reasoning, id, at);
                match text_field(v, "delta"@) {
                    Some(delta) => {
                        updating_keeps(entered, slot, q.reasoning[slot], item_id, index);
                    },
                    None => {},
                }
            },
            None => {},
        }
    } else if kind == Some("response.reasoning_summary_text.done"@) || kind == Some(
        "response.reasoning_summary_part.done"@,
    ) {
        match event_key(v) {
            Some((id, at)) => {
                let output_index = u64_field(v, "output_index"@);
                entering_keeps(p.reasoning, id, at, output_index, item_id, index);
                let entered = with_part(p.reasoning, id, at, output_index);
                let slot = part_slot(p.reasoning, id, at);
                updating_keeps(entered, slot, q.reasoning[slot], item_id, index);
            },
            None => {},
        }
    } else if kind == Some("response.output_item.added"@) || kind == Some(
        "response.function_call_arguments.delta"@,
    ) || kind == Some("response.function_call_arguments.done"@) {
    } else if kind == Some("response.output_item.done"@) {
        match field_of(v, "item"@) {
            Some(item) => {
                reasoning_item_once(
                    p.reasoning,
                    item,
                    u64_field(v, "output_index"@),
                    item_id,
                    index,
                );
            },
            None => {},
        }
    } else if kind == Some("response.completed"@) || kind == Some("response.incomplete"@) {
        match field_of(v, "response"@) {
            Some(response) => {
                let read = match items_field(response, "output"@) {
                    Some(output) => {
                        output_once(p.reasoning, output, item_id, index);
                        after_output(p.reasoning, output)
                    },
                    None => (p.reasoning, Seq::empty()),
                };
                let middle = ParserView {
                    usage: usage_of(field_of(response, "usage"@)),
                    reasoning: read.0,
                    ..p
                };
                let status = text_field(response, "status"@);
                let reason = inner_text(response, "incomplete_details"@, "reason"@);
                ending_once(middle, status, reason, item_id, index);
                hands_out_in_turn(
                    p.reasoning,
                    read.1,
                    read.0,
                    after_end(middle, status, reason).1,
                    q.reasoning,
                    item_id,
                    index,
                );
            },
            None => {
                ending_once(p, None, None, item_id, index);
            },
        }
    }
}

/// Each part of a reasoning summary is handed out at most once, whatever the
/// transport delivers.
pub proof fn thoughts_are_handed_out_once(pulls: Seq<SsePullView>, item_id: Seq<char>, index: u64)
    ensures
        ({
            let stream = pulled_all(StreamView::fresh(), pulls);
            &&& parts_in_order(stream.parser.reasoning)
            &&& count(stream.outbox, thinking_of(item_id, index)) <= if handed_out(
                stream.parser.reasoning,
                item_id,
                index,
            ) {
                1nat
            } else {
                0nat
            }
        }),
    decreases pulls.len(),
{
    let kind = thinking_of(item_id, index);
    if pulls.len() > 0 {
        thoughts_are_handed_out_once(pulls.drop_last(), item_id, index);
        let before = pulled_all(StreamView::fresh(), pulls.drop_last());
        let after = pulled_all(StreamView::fresh(), pulls);
        match pulls.last() {
            SsePullView::Failed(reason) => {
                count_push(before.outbox, after.outbox.last(), kind);
            },
            SsePullView::Closed => {
                ending_once(before.parser, None, None, item_id, index);
                count_concat(before.outbox, after_end(before.parser, None, None).1, kind);
            },
            SsePullView::Data(data) => {
                let text = trimmed(data);
                if text == "[DONE]"@ {
                    ending_once(before.parser, None, None, item_id, index);
                    count_concat(before.outbox, after_end(before.parser, None, None).1, kind);
                } else if text.len() > 0 {
                    match json_parsed(text) {
                        Ok(value) => {
                            thoughts_of_event(before.parser, value, item_id, index);
                            count_concat(
                                before.outbox,
                                after_event(before.parser, value).1,
                                kind,
                            );
                        },
                        Err(_) => {},
                    }
                }
            },
        }
    }
}

/// Where a thinking block belongs: its item, and its place in the summary.
pub open spec fn thought_key(item: ItemView) -> Option<(Seq<char>, u64)> {
    match item {
        Ok(StreamEventView::ThinkingBlock { metadata, .. }) => match metadata {
            ThinkingMetadataView::OpenAIResponses { item_id, summary_index, .. } => Some(
                (
                    match item_id {
                        Some(id) => id,
                        None => Seq::empty(),
                    },
                    summary_index,
                ),
            ),
            _ => None,
        },
        _ => None,
    }
}

/// Whether one place comes before another: by item, then by place in the
/// summary.
pub open spec fn key_before(a: (Seq<char>, u64), b: (Seq<char>, u64)) -> bool {
    if a.0 == b.0 {
        a.1 < b.1
    } else {
        text_le(a.0, b.0)
    }
}

/// The parts that were not handed out yet.
pub open spec fn open_parts(parts: Seq<ReasoningView>) -> Seq<ReasoningView>
    decreases parts.len(),
{
    if parts.len() == 0 {
        Seq::empty()
    } else {
        let before = open_parts(parts.drop_last());
        if parts.last().emitted {
            before
        } else {
            before.push(parts.last())
        }
    }
}

proof fn open_parts_in_order(parts: Seq<ReasoningView>)
    requires
        parts_in_order(parts),
    ensures
        parts_in_order(open_parts(parts)),
        forall|i: int|
            0 <= i < open_parts(parts).len() ==> parts.contains(#[trigger] open_parts(parts)[i])
                && !open_parts(parts)[i].emitted,
        forall|k: int|
            0 <= k < parts.len() && !(#[trigger] parts[k]).emitted ==> open_parts(parts).contains(
                parts[k],
            ),
        reasoning_events(parts, None).len() == open_parts(parts).len(),
        forall|i: int|
            0 <= i < open_parts(parts).len() ==> #[trigger] reasoning_events(parts, None)[i]
                == reasoning_event(open_parts(parts)[i]),
    decreases parts.len(),
{
    if parts.len() > 0 {
        let shorter = parts.drop_last();
        assert forall|i: int, j: int| 0 <= i < j < shorter.len() implies part_before(
            #[trigger] shorter[i],
            (#[trigger] shorter[j]).item_id,
            shorter[j].summary_index,
        ) by {
            assert(part_before(parts[i], parts[j].item_id, parts[j].summary_index));
        }
        open_parts_in_order(shorter);
        let before = open_parts(shorter);
        let open = open_parts(parts);
        let last = parts.len() - 1;
        assert forall|i: int| 0 <= i < before.len() implies parts.contains(#[trigger] before[i])
            && part_before(before[i], parts[last].item_id, parts[last].summary_index) by {
            assert(shorter.contains(before[i]));
            let k = choose|k: int| 0 <= k < shorter.len() && shorter[k] == before[i];
            assert(parts[k] == before[i]);
        }
        assert forall|i: int| 0 <= i < open.len() implies parts.contains(#[trigger] open[i])
            && !open[i].emitted by {
            if i < before.len() {
                assert(open[i] == before[i]);
            } else {
                assert(open[i] == parts[last]);
            }
        }
        assert forall|k: int| 0 <= k < parts.len() && !(#[trigger] parts[k]).emitted implies
            open.contains(parts[k]) by {
            if k < last {
                assert(shorter[k] == parts[k]);
                assert(before.contains(shorter[k]));
                let i = choose|i: int| 0 <= i < before.len() && before[i] == shorter[k];
                assert(open[i] == parts[k]);
            } else {
                assert(open[before.len() as int] == parts[k]);
            }
        }
        assert forall|i: int, j: int| 0 <= i < j < open.len() implies part_before(
            #[trigger] open[i],
            (#[trigger] open[j]).item_id,
            open[j].summary_index,
        ) by {
            assert(open[i] == before[i]);
            if j < before.len() {
                assert(open[j] == before[j]);
            }
        }
    }
}

/// The end of a stream hands out, in this order: every summary part that was
/// not handed out yet, ascending by item and place; calls; the token counts,
/// the reason and the end mark. Where the end was reported before, nothing is
/// handed out and nothing changes.
pub open spec fn ends_in_order(
    p: ParserView,
    status: Option<Seq<char>>,
    incomplete_reason: Option<Seq<char>>,
) -> bool {
    let (q, items) = after_end(p, status, incomplete_reason);
    let open = open_parts(p.reasoning);
    if p.emitted_terminal {
        q == p && items.len() == 0
    } else {
        &&& items.len() >= open.len() + 3
        &&& forall|k: int|
            0 <= k < p.reasoning.len() && !(#[trigger] p.reasoning[k]).emitted ==> open.contains(
                p.reasoning[k],
            )
        &&& forall|i: int|
            0 <= i < open.len() ==> #[trigger] items[i] == reasoning_event(open[i])
        &&& forall|i: int, j: int|
            0 <= i < j < open.len() ==> key_before(
                thought_key(#[trigger] items[i])->0,
                thought_key(#[trigger] items[j])->0,
            )
        &&& forall|i: int|
            open.len() <= i < items.len() - 3 ==> call_item()(#[trigger] items[i])
        &&& items[items.len() - 3] == Ok::<StreamEventView, ProviderErrorView>(
            StreamEventView::Usage(p.usage),
        )
        &&& items[items.len() - 2] == Ok::<StreamEventView, ProviderErrorView>(
            StreamEventView::MessageDelta {
                stop_reason: stop_reason_of(status, incomplete_reason, q.saw_tool_use),
            },
        )
        &&& items[items.len() - 1] == Ok::<StreamEventView, ProviderErrorView>(
            StreamEventView::Done,
        )
    }
}

proof fn end_in_order(
    p: ParserView,
    status: Option<Seq<char>>,
    incomplete_reason: Option<Seq<char>>,
)
    requires
        parts_in_order(p.reasoning),
    ensures
        ends_in_order(p, status, incomplete_reason),
{
    let (q, items) = after_end(p, status, incomplete_reason);
    let open = open_parts(p.reasoning);
    if !p.emitted_terminal {
        open_parts_in_order(p.reasoning);
        let thoughts = reasoning_events(p.reasoning, None);
        let (ids, calls) = drained(p.tools, p.emitted_tools);
        all_calls(p.tools, p.emitted_tools);
        assert forall|i: int| 0 <= i < open.len() implies #[trigger] items[i] == reasoning_event(
            open[i],
        ) by {
            assert(items[i] == thoughts[i]);
        }
        assert forall|i: int, j: int| 0 <= i < j < open.len() implies key_before(
            thought_key(#[trigger] items[i])->0,
            thought_key(#[trigger] items[j])->0,
        ) by {
            assert(items[i] == reasoning_event(open[i]));
            assert(items[j] == reasoning_event(open[j]));
            assert(part_before(open[i], open[j].item_id, open[j].summary_index));
            reasoning_key_of(open[i]);
            reasoning_key_of(open[j]);
        }
        assert forall|i: int| open.len() <= i < items.len() - 3 implies call_item()(
            #[trigger] items[i],
        ) by {
            assert(items[i] == calls[i - open.len()]);
        }
    }
}

proof fn reasoning_key_of(part: ReasoningView)
    ensures
        thought_key(reasoning_event(part)) == Some((part.item_id, part.summary_index)),
{
    if part.item_id.len() == 0 {
        assert(part.item_id =~= Seq::<char>::empty());
    }
}

/// A tool call.
pub open spec fn call_item() -> spec_fn(ItemView) -> bool {
    |item: ItemView|
        match item {
            Ok(StreamEventView::ToolUse { .. }) => true,
            _ => false,
        }
}

proof fn all_calls(tools: Seq<PendingToolCallView>, emitted: Seq<Seq<char>>)
    ensures
        forall|i: int|
            0 <= i < drained(tools, emitted).1.len() ==> call_item()(
                #[trigger] drained(tools, emitted).1[i],
            ),
        count(drained(tools, emitted).1, call_item()) == drained(tools, emitted).1.len(),
    decreases tools.len(),
{
    if tools.len() > 0 {
        all_calls(tools.drop_last(), emitted);
        let events = drained(tools.drop_last(), emitted).1;
        count_push(events, tool_event(tools.last()), call_item());
    }
}

proof fn thoughts_without_calls(parts: Seq<ReasoningView>, item_id: Option<Seq<char>>)
    ensures
        count(reasoning_events(parts, item_id), call_item()) == 0,
    decreases parts.len(),
{
    if parts.len() > 0 {
        thoughts_without_calls(parts.drop_last(), item_id);
        count_push(
            reasoning_events(parts.drop_last(), item_id),
            reasoning_event(parts.last()),
            call_item(),
        );
    }
}

proof fn item_without_calls(parts: Seq<ReasoningView>, item: JsonView, output_index: Option<u64>)
    ensures
        count(after_reasoning_item(parts, item, output_index).1, call_item()) == 0,
{
    let read = match items_field(item, "summary"@) {
        Some(summary) => with_summary(parts, item, output_index, summary),
        None => parts,
    };
    thoughts_without_calls(read, Some(text_field_or_empty(item, "id"@)));
}

proof fn output_without_calls(parts: Seq<ReasoningView>, output: Seq<JsonView>)
    ensures
        count(after_output(parts, output).1, call_item()) == 0,
    decreases output.len(),
{
    if output.len() > 0 {
        output_without_calls(parts, output.drop_last());
        let (before, events) = after_output(parts, output.drop_last());
        if text_field(output.last(), "type"@) == Some("reasoning"@) {
            let at = Some((output.len() - 1) as u64);
            item_without_calls(before, output.last(), at);
            count_concat(
                events,
                after_reasoning_item(before, output.last(), at).1,
                call_item(),
            );
        }
    }
}

/// Whether items are followed by a parser that remembers the calls in them.
spec fn remembers(before: bool, items: Seq<ItemView>, after: bool) -> bool {
    after == (before || count(items, call_item()) > 0)
}

proof fn end_remembers(
    p: ParserView,
    status: Option<Seq<char>>,
    incomplete_reason: Option<Seq<char>>,
)
    ensures
        remembers(
            p.saw_tool_use,
            after_end(p, status, incomplete_reason).1,
            after_end(p, status, incomplete_reason).0.saw_tool_use,
        ),
{
    let (q, items) = after_end(p, status, incomplete_reason);
    if !p.emitted_terminal {
        let thoughts = reasoning_events(p.reasoning, None);
        let (ids, calls) = drained(p.tools, p.emitted_tools);
        let tail = items.skip((thoughts.len() + calls.len()) as int);
        thoughts_without_calls(p.reasoning, None);
        all_calls(p.tools, p.emitted_tools);
        count_concat(thoughts, calls, call_item());
        count_concat(thoughts + calls, tail, call_item());
        assert(items =~= thoughts + calls + tail);
        reveal_with_fuel(count, 4);
        assert(tail.drop_last() =~= seq![tail[0], tail[1]]);
        assert(tail.drop_last().drop_last() =~= seq![tail[0]]);
        assert(tail.drop_last().drop_last().drop_last() =~= Seq::<ItemView>::empty());
    }
}

pub(crate) proof fn end_calls_counted(
    p: ParserView,
    status: Option<Seq<char>>,
    incomplete_reason: Option<Seq<char>>,
)
    requires
        !p.emitted_terminal,
    ensures
        count(after_end(p, status, incomplete_reason).1, call_item()) == drained(
            p.tools,
            p.emitted_tools,
        ).1.len(),
{
    let items = after_end(p, status, incomplete_reason).1;
    let thoughts = reasoning_events(p.reasoning, None);
    let calls = drained(p.tools, p.emitted_tools).1;
    let tail = items.skip((thoughts.len() + calls.len()) as int);
    thoughts_without_calls(p.reasoning, None);
    all_calls(p.tools, p.emitted_tools);
    count_concat(thoughts, calls, call_item());
    count_concat(thoughts + calls, tail, call_item());
    assert(items =~= thoughts + calls + tail);
    reveal_with_fuel(count, 4);
    assert(tail.drop_last() =~= seq![tail[0], tail[1]]);
    assert(tail.drop_last().drop_last() =~= seq![tail[0]]);
    assert(tail.drop_last().drop_last().drop_last() =~= Seq::<ItemView>::empty());
}

proof fn event_remembers(p: ParserView, v: JsonView)
    ensures
        remembers(p.saw_tool_use, after_event(p, v).1, after_event(p, v).0.saw_tool_use),
{
    reveal_with_fuel(count, 2);
    let (q, items, over) = after_event(p, v);
    let kind = text_field(v, "type"@);
    if items.len() == 1 {
        assert(items.drop_last() =~= Seq::<ItemView>::empty());
    }
    if kind == Some("response.output_item.done"@) {
        match field_of(v, "item"@) {
            Some(item) => {
                item_without_calls(p.reasoning, item, u64_field(v, "output_index"@));
            },
            None => {},
        }
    } else if kind == Some("response.completed"@) || kind == Some("response.incomplete"@) {
        match field_of(v, "response"@) {
            Some(response) => {
                let read = match items_field(response, "output"@) {
                    Some(output) => {
                        output_without_calls(p.reasoning, output);
                        after_output(p.reasoning, output)
                    },
                    None => (p.reasoning, Seq::empty()),
                };
                let middle = before_end(p, response);
                let status = text_field(response, "status"@);
                let reason = inner_text(response, "incomplete_details"@, "reason"@);
                end_remembers(middle, status, reason);
                count_concat(read.1, after_end(middle, status, reason).1, call_item());
            },
            None => {
                end_remembers(p, None, None);
            },
        }
    }
}

/// The parser that has read a complete answer and is about to end.
pub open spec fn before_end(p: ParserView, response: JsonView) -> ParserView {
    ParserView {
        usage: usage_of(field_of(response, "usage"@)),
        reasoning: match items_field(response, "output"@) {
            Some(output) => after_output(p.reasoning, output).0,
            None => p.reasoning,
        },
        ..p
    }
}

/// Whatever the transport delivered before, the end of the stream hands out
/// the open summary parts in ascending order of item and place, then calls,
/// then the token counts, the reason and the end mark: where the input ends,
/// and where an event carries the complete answer.
pub proof fn streams_end_in_order(
    pulls: Seq<SsePullView>,
    response: JsonView,
    status: Option<Seq<char>>,
    incomplete_reason: Option<Seq<char>>,
)
    ensures
        ({
            let p = pulled_all(StreamView::fresh(), pulls).parser;
            &&& ends_in_order(p, status, incomplete_reason)
            &&& ends_in_order(before_end(p, response), status, incomplete_reason)
        }),
{
    let p = pulled_all(StreamView::fresh(), pulls).parser;
    thoughts_are_handed_out_once(pulls, Seq::empty(), 0);
    match items_field(response, "output"@) {
        Some(output) => {
            output_once(p.reasoning, output, Seq::empty(), 0);
        },
        None => {},
    }
    end_in_order(p, status, incomplete_reason);
    end_in_order(before_end(p, response), status, incomplete_reason);
}

/// A stream knows whether it handed out a call: the reason that it reports at
/// its end counts every call, those handed out with the end among them.
pub proof fn calls_are_remembered(pulls: Seq<SsePullView>)
    ensures
        ({
            let stream = pulled_all(StreamView::fresh(), pulls);
            stream.parser.saw_tool_use <==> count(stream.outbox, call_item()) > 0
        }),
    decreases pulls.len(),
{
    if pulls.len() > 0 {
        calls_are_remembered(pulls.drop_last());
        let before = pulled_all(StreamView::fresh(), pulls.drop_last());
        let after = pulled_all(StreamView::fresh(), pulls);
        match pulls.last() {
            SsePullView::Failed(reason) => {
                count_push(before.outbox, after.outbox.last(), call_item());
            },
            SsePullView::Closed => {
                end_remembers(before.parser, None, None);
                count_concat(before.outbox, after_end(before.parser, None, None).1, call_item());
            },
            SsePullView::Data(data) => {
                let text = trimmed(data);
                if text == "[DONE]"@ {
                    end_remembers(before.parser, None, None);
                    count_concat(
                        before.outbox,
                        after_end(before.parser, None, None).1,
                        call_item(),
                    );
                } else if text.len() > 0 {
                    match json_parsed(text) {
                        Ok(value) => {
                            event_remembers(before.parser, value);
                            count_concat(
                                before.outbox,
                                after_event(before.parser, value).1,
                                call_item(),
                            );
                        },
                        Err(_) => {},
                    }
                }
            },
        }
    }
}

/// The ids of the calls that a stream handed out are distinct, whatever the
/// transport delivers.
pub proof fn stream_hands_out_calls_once(pulls: Seq<SsePullView>)
    ensures
        pulled_all(StreamView::fresh(), pulls).parser.emitted_tools.no_duplicates(),
    decreases pulls.len(),
{
    if pulls.len() > 0 {
        stream_hands_out_calls_once(pulls.drop_last());
        let before = pulled_all(StreamView::fresh(), pulls.drop_last());
        drained_once(before.parser.tools, before.parser.emitted_tools);
        match pulls.last() {
            SsePullView::Data(data) => {
                match json_parsed(trimmed(data)) {
                    Ok(value) => {
                        calls_are_handed_out_once(before.parser, value);
                    },
                    Err(_) => {},
                }
            },
            _ => {},
        }
    }
}

} // verus!
