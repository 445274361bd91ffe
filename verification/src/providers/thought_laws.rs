//! What becomes of the reasoning in a Responses stream: each part of a summary
//! is gathered under its item and place, and handed out with its text.
use crate::error::ProviderErrorView;
use crate::json::{has, lacks, number_at, told, told_or_nothing, value_at, JsonView};
use crate::message::{ThinkingMetadataView, ThinkingProvider};
use crate::providers::event_laws::is_event;
use crate::providers::response::{items_field, text_field_or_empty};
use crate::providers::sse::{
    after_end, after_event, after_output, after_reasoning_item, marked, part_at, part_before,
    part_slot, reasoning_events, selected, with_part, with_summary, ItemView,
    ParserView, ReasoningView,
};
use crate::providers::sse_laws::{
    entering_keeps, output_once, parts_in_order, slot_splits, summary_keeps, updating_keeps,
};
use crate::stream::StreamEventView;
use vstd::prelude::*;

verus! {

/// Whether a part stands under an item and place.
pub open spec fn is_part(part: ReasoningView, item_id: Seq<char>, index: u64) -> bool {
    part.item_id == item_id && part.summary_index == index
}

/// Whether a part is known under an item and place.
pub open spec fn known(parts: Seq<ReasoningView>, item_id: Seq<char>, index: u64) -> bool {
    exists|i: int| 0 <= i < parts.len() && is_part(#[trigger] parts[i], item_id, index)
}

/// The part under an item and place, where one is known.
pub open spec fn part_of(parts: Seq<ReasoningView>, item_id: Seq<char>, index: u64) -> Option<
    ReasoningView,
> {
    if known(parts, item_id, index) {
        Some(
            parts[choose|i: int|
                0 <= i < parts.len() && is_part(#[trigger] parts[i], item_id, index)],
        )
    } else {
        None
    }
}

/// The part under an item and place, or an empty one.
pub open spec fn part_or_fresh(
    parts: Seq<ReasoningView>,
    item_id: Seq<char>,
    index: u64,
    output_index: Option<u64>,
) -> ReasoningView {
    match part_of(parts, item_id, index) {
        Some(part) => part,
        None => ReasoningView {
            item_id,
            output_index,
            summary_index: index,
            text: Seq::empty(),
            encrypted_content: None,
            emitted: false,
        },
    }
}

proof fn part_found(parts: Seq<ReasoningView>, at: int)
    requires
        parts_in_order(parts),
        0 <= at < parts.len(),
    ensures
        part_of(parts, parts[at].item_id, parts[at].summary_index) == Some(parts[at]),
{
    let item_id = parts[at].item_id;
    let index = parts[at].summary_index;
    assert(is_part(parts[at], item_id, index));
    let i = choose|i: int| 0 <= i < parts.len() && is_part(#[trigger] parts[i], item_id, index);
    if i < at {
        assert(part_before(parts[i], parts[at].item_id, parts[at].summary_index));
    } else if at < i {
        assert(part_before(parts[at], parts[i].item_id, parts[i].summary_index));
    }
}

proof fn slot_finds(parts: Seq<ReasoningView>, item_id: Seq<char>, index: u64)
    requires
        parts_in_order(parts),
    ensures
        part_at(parts, part_slot(parts, item_id, index), item_id, index) <==> known(
            parts,
            item_id,
            index,
        ),
{
    let slot = part_slot(parts, item_id, index);
    slot_splits(parts, item_id, index);
    if part_at(parts, slot, item_id, index) {
        assert(is_part(parts[slot], item_id, index));
    }
    if known(parts, item_id, index) {
        let i = choose|i: int|
            0 <= i < parts.len() && is_part(#[trigger] parts[i], item_id, index);
        if i < slot {
            assert(part_before(parts[i], item_id, index));
        } else if i > slot {
            assert(part_before(parts[slot], parts[i].item_id, parts[i].summary_index));
        }
    }
}

proof fn entered(
    parts: Seq<ReasoningView>,
    item_id: Seq<char>,
    index: u64,
    output_index: Option<u64>,
    other_id: Seq<char>,
    other_index: u64,
)
    requires
        parts_in_order(parts),
    ensures
        ({
            let out = with_part(parts, item_id, index, output_index);
            let slot = part_slot(parts, item_id, index);
            let part = part_or_fresh(parts, item_id, index, output_index);
            &&& parts_in_order(out)
            &&& 0 <= slot < out.len()
            &&& out[slot] == part
            &&& is_part(part, item_id, index)
            &&& part_of(out, other_id, other_index) == if other_id == item_id && other_index
                == index {
                Some(part)
            } else {
                part_of(parts, other_id, other_index)
            }
        }),
{
    let out = with_part(parts, item_id, index, output_index);
    let slot = part_slot(parts, item_id, index);
    slot_finds(parts, item_id, index);
    slot_splits(parts, item_id, index);
    entering_keeps(parts, item_id, index, output_index, other_id, other_index);
    if part_at(parts, slot, item_id, index) {
        part_found(parts, slot);
    }
    part_found(out, slot);
    if !(other_id == item_id && other_index == index) && !part_at(parts, slot, item_id, index) {
        if known(parts, other_id, other_index) {
            let i = choose|i: int|
                0 <= i < parts.len() && is_part(#[trigger] parts[i], other_id, other_index);
            part_found(parts, i);
            if i < slot {
                assert(out[i] == parts[i]);
                part_found(out, i);
            } else {
                assert(out[i + 1] == parts[i]);
                part_found(out, i + 1);
            }
        } else if known(out, other_id, other_index) {
            let i = choose|i: int|
                0 <= i < out.len() && is_part(#[trigger] out[i], other_id, other_index);
            if i < slot {
                assert(is_part(parts[i], other_id, other_index));
            } else {
                assert(i != slot);
                assert(is_part(parts[i - 1], other_id, other_index));
            }
        }
    }
}

proof fn updated(
    parts: Seq<ReasoningView>,
    slot: int,
    part: ReasoningView,
    other_id: Seq<char>,
    other_index: u64,
)
    requires
        parts_in_order(parts),
        0 <= slot < parts.len(),
        is_part(part, parts[slot].item_id, parts[slot].summary_index),
        part.emitted == parts[slot].emitted,
    ensures
        parts_in_order(parts.update(slot, part)),
        part_of(parts.update(slot, part), other_id, other_index) == if is_part(
            part,
            other_id,
            other_index,
        ) {
            Some(part)
        } else {
            part_of(parts, other_id, other_index)
        },
{
    let out = parts.update(slot, part);
    updating_keeps(parts, slot, part, other_id, other_index);
    part_found(out, slot);
    if !is_part(part, other_id, other_index) {
        if known(parts, other_id, other_index) {
            let i = choose|i: int|
                0 <= i < parts.len() && is_part(#[trigger] parts[i], other_id, other_index);
            part_found(parts, i);
            assert(out[i] == parts[i]);
            part_found(out, i);
        } else if known(out, other_id, other_index) {
            let i = choose|i: int|
                0 <= i < out.len() && is_part(#[trigger] out[i], other_id, other_index);
            assert(is_part(parts[i], other_id, other_index));
        }
    }
}

/// Whether an event speaks of a part of a summary.
pub open spec fn speaks_of(v: JsonView, item_id: Seq<char>, index: u64) -> bool {
    &&& has(v, "item_id"@, JsonView::Text(item_id))
    &&& has(v, "summary_index"@, JsonView::Int(index as int))
}

/// The place in the output that an event tells.
pub open spec fn output_told(v: JsonView) -> Option<u64> {
    match number_at(v, "output_index"@) {
        Some(n) => Some(n as u64),
        None => None,
    }
}

proof fn thought_kinds_apart()
    ensures
        "response.output_text.delta"@.len() == 26,
        "response.reasoning_summary_text.delta"@.len() == 37,
        "response.reasoning_summary_text.done"@.len() == 36,
        "response.reasoning_summary_part.done"@.len() == 36,
        "response.output_item.added"@.len() == 26,
        "response.function_call_arguments.delta"@.len() == 38,
        "response.function_call_arguments.done"@.len() == 37,
        "response.output_item.done"@.len() == 25,
        "response.completed"@.len() == 18,
        "response.incomplete"@.len() == 19,
        "reasoning"@.len() == 9,
        "function_call"@.len() == 13,
{
    reveal_strlit("response.output_text.delta");
    reveal_strlit("response.reasoning_summary_text.delta");
    reveal_strlit("response.reasoning_summary_text.done");
    reveal_strlit("response.reasoning_summary_part.done");
    reveal_strlit("response.output_item.added");
    reveal_strlit("response.function_call_arguments.delta");
    reveal_strlit("response.function_call_arguments.done");
    reveal_strlit("response.output_item.done");
    reveal_strlit("response.completed");
    reveal_strlit("response.incomplete");
    reveal_strlit("reasoning");
    reveal_strlit("function_call");
}

/// More text of a summary is shown as it comes, and stands behind what came of
/// its part; every other part is as it was.
pub proof fn thoughts_are_shown_and_gathered(
    p: ParserView,
    v: JsonView,
    item_id: Seq<char>,
    index: u64,
    delta: Seq<char>,
    other_id: Seq<char>,
    other_index: u64,
)
    requires
        parts_in_order(p.reasoning),
        is_event(v, "response.reasoning_summary_text.delta"@),
        speaks_of(v, item_id, index),
        told(v, "delta"@) == Some(delta),
    ensures
        ({
            let (q, items, over) = after_event(p, v);
            let before = part_or_fresh(
                p.reasoning,
                item_id,
                index,
                output_told(v),
            );
            &&& items == if delta.len() > 0 {
                seq![
                    Ok::<StreamEventView, ProviderErrorView>(
                        StreamEventView::ThinkingDelta { text: delta },
                    ),
                ]
            } else {
                Seq::empty()
            }
            &&& part_of(q.reasoning, other_id, other_index) == if other_id == item_id
                && other_index == index {
                Some(ReasoningView { text: before.text + delta, ..before })
            } else {
                part_of(p.reasoning, other_id, other_index)
            }
            &&& q == (ParserView { reasoning: q.reasoning, ..p })
            &&& !over
        }),
{
    thought_kinds_apart();
    let output_index = output_told(v);
    let before = part_or_fresh(p.reasoning, item_id, index, output_index);
    let parts = with_part(p.reasoning, item_id, index, output_index);
    let slot = part_slot(p.reasoning, item_id, index);
    entered(p.reasoning, item_id, index, output_index, other_id, other_index);
    updated(
        parts,
        slot,
        ReasoningView { text: before.text + delta, ..before },
        other_id,
        other_index,
    );
}

/// The whole text that the end of a summary part brings: its own, or that of the
/// part it carries.
pub open spec fn text_at_the_end(v: JsonView) -> Seq<char> {
    if lacks(v, "text"@) {
        told_or_nothing(value_at(v, "part"@), "text"@)
    } else {
        told_or_nothing(v, "text"@)
    }
}

/// The end of a summary part may bring its whole text, which replaces what was
/// gathered; every other part is as it was, and nothing is handed out yet.
pub proof fn complete_thoughts_replace_what_was_gathered(
    p: ParserView,
    v: JsonView,
    item_id: Seq<char>,
    index: u64,
    other_id: Seq<char>,
    other_index: u64,
)
    requires
        parts_in_order(p.reasoning),
        speaks_of(v, item_id, index),
        is_event(v, "response.reasoning_summary_text.done"@) || is_event(
            v,
            "response.reasoning_summary_part.done"@,
        ),
    ensures
        ({
            let (q, items, over) = after_event(p, v);
            let before = part_or_fresh(p.reasoning, item_id, index, output_told(v));
            let text = text_at_the_end(v);
            &&& part_of(q.reasoning, other_id, other_index) == if other_id == item_id
                && other_index == index {
                Some(
                    ReasoningView {
                        text: if text.len() > 0 {
                            text
                        } else {
                            before.text
                        },
                        ..before
                    },
                )
            } else {
                part_of(p.reasoning, other_id, other_index)
            }
            &&& q == (ParserView { reasoning: q.reasoning, ..p })
            &&& items.len() == 0
            &&& !over
        }),
{
    thought_kinds_apart();
    let output_index = output_told(v);
    let before = part_or_fresh(p.reasoning, item_id, index, output_index);
    let parts = with_part(p.reasoning, item_id, index, output_index);
    let slot = part_slot(p.reasoning, item_id, index);
    let text = text_at_the_end(v);
    let part = ReasoningView {
        text: if text.len() > 0 {
            text
        } else {
            before.text
        },
        ..before
    };
    entered(p.reasoning, item_id, index, output_index, other_id, other_index);
    updated(parts, slot, part, other_id, other_index);
}

/// Whether an item is a thinking block of this wire with the text, the place
/// and the encrypted content of a part.
pub open spec fn is_thought(item: ItemView, part: ReasoningView) -> bool {
    match item {
        Ok(StreamEventView::ThinkingBlock { text, provider, metadata }) => {
            &&& text == part.text
            &&& provider == ThinkingProvider::OpenAIResponses
            &&& match metadata {
                ThinkingMetadataView::OpenAIResponses {
                    item_id,
                    output_index,
                    summary_index,
                    encrypted_content,
                } => {
                    &&& part.item_id.len() > 0 ==> item_id == Some(part.item_id)
                    &&& part.item_id.len() == 0 ==> item_id is None
                    &&& output_index == part.output_index
                    &&& summary_index == part.summary_index
                    &&& encrypted_content == part.encrypted_content
                },
                _ => false,
            }
        },
        _ => false,
    }
}

/// Whether items hold a thinking block for a part.
pub open spec fn holds_thought(items: Seq<ItemView>, part: ReasoningView) -> bool {
    exists|i: int| 0 <= i < items.len() && is_thought(#[trigger] items[i], part)
}

proof fn thought_still_held(first: Seq<ItemView>, second: Seq<ItemView>, part: ReasoningView)
    ensures
        holds_thought(first, part) || holds_thought(second, part) ==> holds_thought(
            first + second,
            part,
        ),
{
    let both = first + second;
    if holds_thought(first, part) {
        let i = choose|i: int| 0 <= i < first.len() && is_thought(#[trigger] first[i], part);
        assert(is_thought(both[i], part));
    } else if holds_thought(second, part) {
        let i = choose|i: int| 0 <= i < second.len() && is_thought(#[trigger] second[i], part);
        assert(is_thought(both[first.len() + i], part));
    }
}

proof fn open_part_handed_out(parts: Seq<ReasoningView>, chosen: Option<Seq<char>>, at: int)
    requires
        0 <= at < parts.len(),
        selected(parts[at], chosen),
        !parts[at].emitted,
    ensures
        holds_thought(reasoning_events(parts, chosen), parts[at]),
    decreases parts.len(),
{
    let before = reasoning_events(parts.drop_last(), chosen);
    let events = reasoning_events(parts, chosen);
    if at == parts.len() - 1 {
        assert(is_thought(events[before.len() as int], parts[at]));
    } else {
        assert(parts.drop_last()[at] == parts[at]);
        open_part_handed_out(parts.drop_last(), chosen, at);
        let more = events.skip(before.len() as int);
        thought_still_held(before, more, parts[at]);
        assert(before + more =~= events);
    }
}

/// The end of a stream hands out every part that was gathered and not handed
/// out yet, with its text.
pub proof fn the_end_hands_out_open_thoughts(
    p: ParserView,
    status: Option<Seq<char>>,
    incomplete_reason: Option<Seq<char>>,
    at: int,
)
    requires
        !p.emitted_terminal,
        0 <= at < p.reasoning.len(),
        !p.reasoning[at].emitted,
    ensures
        holds_thought(after_end(p, status, incomplete_reason).1, p.reasoning[at]),
{
    open_part_handed_out(p.reasoning, None, at);
    let thoughts = reasoning_events(p.reasoning, None);
    let items = after_end(p, status, incomplete_reason).1;
    let rest = items.skip(thoughts.len() as int);
    thought_still_held(thoughts, rest, p.reasoning[at]);
    assert(thoughts + rest =~= items);
}

/// What is known of a part once its item is complete: the text and the
/// encrypted content that the item tells, and else what was known before.
pub open spec fn completed_part(
    parts: Seq<ReasoningView>,
    item_id: Seq<char>,
    index: u64,
    output_index: Option<u64>,
    text: Option<Seq<char>>,
    encrypted: Option<Seq<char>>,
) -> ReasoningView {
    let before = part_or_fresh(parts, item_id, index, output_index);
    ReasoningView {
        text: match text {
            Some(told) => told,
            None => before.text,
        },
        encrypted_content: encrypted,
        output_index: match before.output_index {
            Some(n) => Some(n),
            None => output_index,
        },
        ..before
    }
}

proof fn summary_read(
    parts: Seq<ReasoningView>,
    item: JsonView,
    output_index: Option<u64>,
    summary: Seq<JsonView>,
    other_id: Seq<char>,
    other_index: u64,
)
    requires
        parts_in_order(parts),
        summary.len() <= u64::MAX,
    ensures
        ({
            let read = with_summary(parts, item, output_index, summary);
            let item_id = told_or_nothing(item, "id"@);
            &&& parts_in_order(read)
            &&& part_of(read, other_id, other_index) == if other_id == item_id && other_index
                < summary.len() {
                Some(
                    completed_part(
                        parts,
                        item_id,
                        other_index,
                        output_index,
                        told(summary[other_index as int], "text"@),
                        told(item, "encrypted_content"@),
                    ),
                )
            } else {
                part_of(parts, other_id, other_index)
            }
        }),
    decreases summary.len(),
{
    if summary.len() > 0 {
        let item_id = told_or_nothing(item, "id"@);
        assert(item_id == text_field_or_empty(item, "id"@));
        let last = (summary.len() - 1) as u64;
        let rest = summary.drop_last();
        summary_read(parts, item, output_index, rest, other_id, other_index);
        summary_read(parts, item, output_index, rest, item_id, last);
        let before = with_summary(parts, item, output_index, rest);
        let slot = part_slot(before, item_id, last);
        let entries = with_part(before, item_id, last, output_index);
        entered(before, item_id, last, output_index, other_id, other_index);
        let part = completed_part(
            parts,
            item_id,
            last,
            output_index,
            told(summary[summary.len() - 1], "text"@),
            told(item, "encrypted_content"@),
        );
        updated(entries, slot, part, other_id, other_index);
        assert(with_summary(parts, item, output_index, summary) == entries.update(slot, part));
    }
}

proof fn marked_parts(
    parts: Seq<ReasoningView>,
    chosen: Seq<char>,
    other_id: Seq<char>,
    other_index: u64,
)
    requires
        parts_in_order(parts),
        other_id != chosen,
    ensures
        parts_in_order(marked(parts, Some(chosen))),
        part_of(marked(parts, Some(chosen)), other_id, other_index) == part_of(
            parts,
            other_id,
            other_index,
        ),
{
    let out = marked(parts, Some(chosen));
    assert forall|i: int, j: int| 0 <= i < j < out.len() implies part_before(
        #[trigger] out[i],
        (#[trigger] out[j]).item_id,
        out[j].summary_index,
    ) by {
        assert(part_before(parts[i], parts[j].item_id, parts[j].summary_index));
    }
    if known(parts, other_id, other_index) {
        let i = choose|i: int|
            0 <= i < parts.len() && is_part(#[trigger] parts[i], other_id, other_index);
        part_found(parts, i);
        assert(out[i] == parts[i]);
        part_found(out, i);
    } else if known(out, other_id, other_index) {
        let i = choose|i: int|
            0 <= i < out.len() && is_part(#[trigger] out[i], other_id, other_index);
        assert(is_part(parts[i], other_id, other_index));
    }
}

/// Whether an output item is a reasoning item with a summary.
pub open spec fn has_summary(item: JsonView, summary: Seq<JsonView>) -> bool {
    &&& has(item, "type"@, JsonView::Text("reasoning"@))
    &&& has(item, "summary"@, JsonView::Array(summary))
}

proof fn reasoning_item_read(
    parts: Seq<ReasoningView>,
    item: JsonView,
    output_index: Option<u64>,
    summary: Seq<JsonView>,
    index: u64,
)
    requires
        parts_in_order(parts),
        has_summary(item, summary),
        index < summary.len() <= u64::MAX,
        !part_or_fresh(parts, told_or_nothing(item, "id"@), index, output_index).emitted,
    ensures
        holds_thought(
            after_reasoning_item(parts, item, output_index).1,
            completed_part(
                parts,
                told_or_nothing(item, "id"@),
                index,
                output_index,
                told(summary[index as int], "text"@),
                told(item, "encrypted_content"@),
            ),
        ),
{
    let item_id = told_or_nothing(item, "id"@);
    assert(item_id == text_field_or_empty(item, "id"@));
    assert(items_field(item, "summary"@) == Some(summary));
    summary_read(parts, item, output_index, summary, item_id, index);
    let read = with_summary(parts, item, output_index, summary);
    let part = completed_part(
        parts,
        item_id,
        index,
        output_index,
        told(summary[index as int], "text"@),
        told(item, "encrypted_content"@),
    );
    assert(part_of(read, item_id, index) == Some(part));
    let at = choose|i: int| 0 <= i < read.len() && is_part(#[trigger] read[i], item_id, index);
    assert(read[at] == part);
    open_part_handed_out(read, Some(item_id), at);
}

/// A finished reasoning item hands out a thinking block for each part of its
/// summary that was not handed out before: with the text that the item tells,
/// its place, and the encrypted content that the provider wants back.
pub proof fn finished_thoughts_are_handed_out(
    p: ParserView,
    v: JsonView,
    item: JsonView,
    summary: Seq<JsonView>,
    index: u64,
)
    requires
        parts_in_order(p.reasoning),
        is_event(v, "response.output_item.done"@),
        has(v, "item"@, item),
        has_summary(item, summary),
        index < summary.len() <= u64::MAX,
        !part_or_fresh(
            p.reasoning,
            told_or_nothing(item, "id"@),
            index,
            output_told(v),
        ).emitted,
    ensures
        ({
            let (q, items, over) = after_event(p, v);
            &&& holds_thought(
                items,
                completed_part(
                    p.reasoning,
                    told_or_nothing(item, "id"@),
                    index,
                    output_told(v),
                    told(summary[index as int], "text"@),
                    told(item, "encrypted_content"@),
                ),
            )
            &&& q == (ParserView { reasoning: q.reasoning, ..p })
            &&& !over
        }),
{
    thought_kinds_apart();
    reasoning_item_read(p.reasoning, item, output_told(v), summary, index);
}

proof fn summary_of_others(
    parts: Seq<ReasoningView>,
    item: JsonView,
    output_index: Option<u64>,
    summary: Seq<JsonView>,
    other_id: Seq<char>,
    other_index: u64,
)
    requires
        parts_in_order(parts),
        other_id != text_field_or_empty(item, "id"@),
    ensures
        parts_in_order(with_summary(parts, item, output_index, summary)),
        part_of(with_summary(parts, item, output_index, summary), other_id, other_index) == part_of(
            parts,
            other_id,
            other_index,
        ),
    decreases summary.len(),
{
    summary_keeps(parts, item, output_index, summary, other_id, other_index);
    if summary.len() > 0 {
        let item_id = text_field_or_empty(item, "id"@);
        let last = (summary.len() - 1) as u64;
        summary_of_others(
            parts,
            item,
            output_index,
            summary.drop_last(),
            other_id,
            other_index,
        );
        let before = with_summary(parts, item, output_index, summary.drop_last());
        let slot = part_slot(before, item_id, last);
        let entries = with_part(before, item_id, last, output_index);
        entered(before, item_id, last, output_index, other_id, other_index);
        let part = with_summary(parts, item, output_index, summary)[slot];
        updated(entries, slot, part, other_id, other_index);
    }
}

proof fn output_of_others(
    parts: Seq<ReasoningView>,
    output: Seq<JsonView>,
    other_id: Seq<char>,
    other_index: u64,
)
    requires
        parts_in_order(parts),
        forall|i: int|
            0 <= i < output.len() ==> text_field_or_empty(#[trigger] output[i], "id"@) != other_id,
    ensures
        parts_in_order(after_output(parts, output).0),
        part_of(after_output(parts, output).0, other_id, other_index) == part_of(
            parts,
            other_id,
            other_index,
        ),
    decreases output.len(),
{
    output_once(parts, output, other_id, other_index);
    if output.len() > 0 {
        let rest = output.drop_last();
        assert(forall|i: int| 0 <= i < rest.len() ==> #[trigger] rest[i] == output[i]);
        output_of_others(parts, rest, other_id, other_index);
        let before = after_output(parts, rest).0;
        let item = output[output.len() - 1];
        let item_id = text_field_or_empty(item, "id"@);
        let output_index = Some((output.len() - 1) as u64);
        match items_field(item, "summary"@) {
            Some(summary) => {
                summary_of_others(before, item, output_index, summary, other_id, other_index);
                marked_parts(
                    with_summary(before, item, output_index, summary),
                    item_id,
                    other_id,
                    other_index,
                );
            },
            None => {
                marked_parts(before, item_id, other_id, other_index);
            },
        }
    }
}

proof fn output_still_holds(
    parts: Seq<ReasoningView>,
    first: Seq<JsonView>,
    rest: Seq<JsonView>,
    part: ReasoningView,
)
    requires
        holds_thought(after_output(parts, first).1, part),
    ensures
        holds_thought(after_output(parts, first + rest).1, part),
    decreases rest.len(),
{
    let all = first + rest;
    if rest.len() == 0 {
        assert(all =~= first);
    } else {
        output_still_holds(parts, first, rest.drop_last(), part);
        assert(all.drop_last() =~= first + rest.drop_last());
        let before = after_output(parts, all.drop_last());
        thought_still_held(
            before.1,
            after_reasoning_item(before.0, all.last(), Some((all.len() - 1) as u64)).1,
            part,
        );
    }
}

/// A complete answer hands out the reasoning items of its output too: each part
/// of which nothing was heard before, with its text, its place and its
/// encrypted content.
pub proof fn complete_answers_hand_out_thoughts(
    p: ParserView,
    v: JsonView,
    response: JsonView,
    first: Seq<JsonView>,
    item: JsonView,
    rest: Seq<JsonView>,
    summary: Seq<JsonView>,
    index: u64,
)
    requires
        parts_in_order(p.reasoning),
        is_event(v, "response.completed"@) || is_event(v, "response.incomplete"@),
        has(v, "response"@, response),
        has(response, "output"@, JsonView::Array(first.push(item) + rest)),
        first.len() <= u64::MAX,
        forall|i: int|
            0 <= i < first.len() ==> told_or_nothing(#[trigger] first[i], "id"@)
                != told_or_nothing(item, "id"@),
        has_summary(item, summary),
        index < summary.len() <= u64::MAX,
        !known(p.reasoning, told_or_nothing(item, "id"@), index),
    ensures
        after_event(p, v).2,
        holds_thought(
            after_event(p, v).1,
            ReasoningView {
                item_id: told_or_nothing(item, "id"@),
                output_index: Some(first.len() as u64),
                summary_index: index,
                text: told_or_nothing(summary[index as int], "text"@),
                encrypted_content: told(item, "encrypted_content"@),
                emitted: false,
            },
        ),
{
    thought_kinds_apart();
    let output = first.push(item) + rest;
    let item_id = told_or_nothing(item, "id"@);
    let part = ReasoningView {
        item_id,
        output_index: Some(first.len() as u64),
        summary_index: index,
        text: told_or_nothing(summary[index as int], "text"@),
        encrypted_content: told(item, "encrypted_content"@),
        emitted: false,
    };
    assert forall|i: int| 0 <= i < first.len() implies text_field_or_empty(
        #[trigger] first[i],
        "id"@,
    ) != item_id by {
        assert(told_or_nothing(first[i], "id"@) == text_field_or_empty(first[i], "id"@));
    }
    output_of_others(p.reasoning, first, item_id, index);
    let before = after_output(p.reasoning, first);
    let output_index = Some(first.len() as u64);
    reasoning_item_read(before.0, item, output_index, summary, index);
    assert(completed_part(
        before.0,
        item_id,
        index,
        output_index,
        told(summary[index as int], "text"@),
        told(item, "encrypted_content"@),
    ) == part);
    let so_far = first.push(item);
    assert(so_far.drop_last() =~= first);
    thought_still_held(before.1, after_reasoning_item(before.0, item, output_index).1, part);
    output_still_holds(p.reasoning, so_far, rest, part);
    let thoughts = after_output(p.reasoning, output).1;
    assert(items_field(response, "output"@) == Some(output));
    let items = after_event(p, v).1;
    let more = items.skip(thoughts.len() as int);
    thought_still_held(thoughts, more, part);
    assert(items =~= thoughts + more);
}

/// A finished reasoning item that brings no summary hands out what was gathered
/// of it and not handed out yet.
pub proof fn gathered_thoughts_are_handed_out(
    p: ParserView,
    v: JsonView,
    item: JsonView,
    at: int,
)
    requires
        0 <= at < p.reasoning.len(),
        !p.reasoning[at].emitted,
        is_event(v, "response.output_item.done"@),
        has(v, "item"@, item),
        has(item, "type"@, JsonView::Text("reasoning"@)),
        has(item, "id"@, JsonView::Text(p.reasoning[at].item_id)),
        lacks(item, "summary"@),
    ensures
        holds_thought(after_event(p, v).1, p.reasoning[at]),
{
    thought_kinds_apart();
    open_part_handed_out(p.reasoning, Some(p.reasoning[at].item_id), at);
}

} // verus!
