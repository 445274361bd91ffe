//! What a buffered answer, a collected stream and an HTTP failure come to.
use crate::agent::AnswerView;
use crate::agent_laws::{block_event, block_events, heard_all};
use crate::error::ProviderErrorView;
use crate::json::{has, json_parsed, lacks, told, told_or_nothing, value_at, JsonView};
use crate::message::{
    ContentView, StopReason, ThinkingMetadataView, ThinkingProvider, Usage,
};
use crate::provider::ResponseView;
use crate::providers::event_laws::{arguments_read, counts_as_reported, ended_because};
use crate::providers::openai_codex::{collected, CollectedView};
use crate::providers::response::{
    answer_of, answer_of_parsed, error_of_status, item_blocks, output_blocks, part_blocks,
    retry_seconds, summary_blocks,
};
use crate::providers::sse::ItemView;
use crate::stream::StreamEventView;
use crate::text::{
    decimal, decimal_reads_back, is_whitespace, parsed_unsigned, trim_back, trim_front, trimmed,
};
use crate::turn_laws::{streamable, streamed_blocks_keep_their_order};
use vstd::prelude::*;

verus! {

proof fn item_kinds_apart()
    ensures
        "message"@.len() == 7 && "message"@[0] == 'm',
        "refusal"@.len() == 7 && "refusal"@[0] == 'r',
        "output_text"@.len() == 11,
        "function_call"@.len() == 13,
        "reasoning"@.len() == 9,
{
    reveal_strlit("message");
    reveal_strlit("refusal");
    reveal_strlit("output_text");
    reveal_strlit("function_call");
    reveal_strlit("reasoning");
}

/// Whether a part of a message says a text: as what was said, or as why it was
/// refused.
pub open spec fn part_says(part: JsonView, text: Seq<char>) -> bool {
    ||| has(part, "type"@, JsonView::Text("output_text"@)) && has(
        part,
        "text"@,
        JsonView::Text(text),
    )
    ||| has(part, "type"@, JsonView::Text("refusal"@)) && has(
        part,
        "refusal"@,
        JsonView::Text(text),
    )
}

proof fn parts_are_texts(parts: Seq<JsonView>, texts: Seq<Seq<char>>)
    requires
        parts.len() == texts.len(),
        forall|i: int|
            0 <= i < parts.len() ==> part_says(#[trigger] parts[i], texts[i]) && texts[i].len() > 0,
    ensures
        part_blocks(parts).len() == parts.len(),
        forall|i: int|
            0 <= i < parts.len() ==> #[trigger] part_blocks(parts)[i] == (ContentView::Text {
                text: texts[i],
                cache_control: None,
            }),
    decreases parts.len(),
{
    if parts.len() > 0 {
        let rest = parts.drop_last();
        assert forall|i: int| 0 <= i < rest.len() implies part_says(
            #[trigger] rest[i],
            texts.drop_last()[i],
        ) && texts.drop_last()[i].len() > 0 by {
            assert(rest[i] == parts[i]);
        }
        parts_are_texts(rest, texts.drop_last());
        item_kinds_apart();
        let last = parts[parts.len() - 1];
        assert(part_says(last, texts[texts.len() - 1]));
        assert forall|i: int| 0 <= i < parts.len() implies #[trigger] part_blocks(parts)[i] == (
        ContentView::Text { text: texts[i], cache_control: None }) by {
            if i < rest.len() {
                assert(part_blocks(rest)[i] == part_blocks(parts)[i]);
            }
        }
    }
}

/// A message of the model comes to a text block for each of its parts, in their
/// order.
pub proof fn messages_come_to_texts(
    item: JsonView,
    parts: Seq<JsonView>,
    texts: Seq<Seq<char>>,
    output_index: u64,
)
    requires
        has(item, "type"@, JsonView::Text("message"@)),
        has(item, "content"@, JsonView::Array(parts)),
        parts.len() == texts.len(),
        forall|i: int|
            0 <= i < parts.len() ==> part_says(#[trigger] parts[i], texts[i]) && texts[i].len() > 0,
    ensures
        item_blocks(item, output_index).len() == texts.len(),
        forall|i: int|
            0 <= i < texts.len() ==> #[trigger] item_blocks(item, output_index)[i] == (
            ContentView::Text { text: texts[i], cache_control: None }),
{
    parts_are_texts(parts, texts);
}

/// A function call comes to a tool call: its call id with its item id behind a
/// `|`, where it has one, its name, and what its arguments say.
pub proof fn function_calls_come_to_calls(item: JsonView, output_index: u64)
    requires
        has(item, "type"@, JsonView::Text("function_call"@)),
    ensures
        ({
            let call_id = told_or_nothing(item, "call_id"@);
            let item_id = told_or_nothing(item, "id"@);
            item_blocks(item, output_index) == seq![
                ContentView::ToolUse {
                    id: if item_id.len() > 0 {
                        call_id + seq!['|'] + item_id
                    } else {
                        call_id
                    },
                    name: told_or_nothing(item, "name"@),
                    input: arguments_read(told_or_nothing(item, "arguments"@)),
                },
            ]
        }),
{
    item_kinds_apart();
    let call_id = told_or_nothing(item, "call_id"@);
    let item_id = told_or_nothing(item, "id"@);
    assert(call_id.push('|') + item_id =~= call_id + seq!['|'] + item_id);
}

proof fn summaries_are_thoughts(
    item: JsonView,
    output_index: Option<u64>,
    parts: Seq<JsonView>,
    item_id: Seq<char>,
    texts: Seq<Seq<char>>,
    encrypted: Option<Seq<char>>,
)
    requires
        has(item, "id"@, JsonView::Text(item_id)),
        match encrypted {
            Some(text) => has(item, "encrypted_content"@, JsonView::Text(text)),
            None => lacks(item, "encrypted_content"@),
        },
        parts.len() == texts.len() <= u64::MAX,
        forall|i: int|
            0 <= i < texts.len() ==> has(#[trigger] parts[i], "text"@, JsonView::Text(texts[i])),
    ensures
        summary_blocks(item, output_index, parts).len() == parts.len(),
        forall|i: int|
            0 <= i < parts.len() ==> #[trigger] summary_blocks(item, output_index, parts)[i] == (
            ContentView::Thinking {
                text: texts[i],
                provider: ThinkingProvider::OpenAIResponses,
                metadata: ThinkingMetadataView::OpenAIResponses {
                    item_id: Some(item_id),
                    output_index,
                    summary_index: i as u64,
                    encrypted_content: encrypted,
                },
            }),
    decreases parts.len(),
{
    if parts.len() > 0 {
        let rest = parts.drop_last();
        assert forall|i: int| 0 <= i < rest.len() implies has(
            #[trigger] rest[i],
            "text"@,
            JsonView::Text(texts.drop_last()[i]),
        ) by {
            assert(rest[i] == parts[i]);
        }
        summaries_are_thoughts(
            item,
            output_index,
            rest,
            item_id,
            texts.drop_last(),
            encrypted,
        );
        let last = parts.len() - 1;
        assert(has(parts[last], "text"@, JsonView::Text(texts[last])));
        assert forall|i: int| 0 <= i < parts.len() implies #[trigger] summary_blocks(
            item,
            output_index,
            parts,
        )[i] == (ContentView::Thinking {
            text: texts[i],
            provider: ThinkingProvider::OpenAIResponses,
            metadata: ThinkingMetadataView::OpenAIResponses {
                item_id: Some(item_id),
                output_index,
                summary_index: i as u64,
                encrypted_content: encrypted,
            },
        }) by {
            if i < last {
                assert(summary_blocks(item, output_index, rest)[i] == summary_blocks(
                    item,
                    output_index,
                    parts,
                )[i]);
            }
        }
    }
}

/// Whether an output item is a reasoning item with an id, parts with the given
/// texts, and encrypted content where it has any.
pub open spec fn is_reasoning(
    item: JsonView,
    item_id: Seq<char>,
    texts: Seq<Seq<char>>,
    encrypted: Option<Seq<char>>,
) -> bool {
    &&& has(item, "type"@, JsonView::Text("reasoning"@))
    &&& has(item, "id"@, JsonView::Text(item_id))
    &&& match encrypted {
        Some(text) => has(item, "encrypted_content"@, JsonView::Text(text)),
        None => lacks(item, "encrypted_content"@),
    }
    &&& exists|summary: Seq<JsonView>|
        {
            &&& #[trigger] has(item, "summary"@, JsonView::Array(summary))
            &&& summary.len() == texts.len()
            &&& forall|i: int|
                0 <= i < texts.len() ==> has(
                    #[trigger] summary[i],
                    "text"@,
                    JsonView::Text(texts[i]),
                )
        }
}

/// A reasoning item comes to a thinking block for each part of its summary, in
/// their order, with all that the provider wants back.
pub proof fn reasoning_comes_to_thoughts(
    item: JsonView,
    item_id: Seq<char>,
    texts: Seq<Seq<char>>,
    encrypted: Option<Seq<char>>,
    output_index: u64,
)
    requires
        is_reasoning(item, item_id, texts, encrypted),
        texts.len() <= u64::MAX,
    ensures
        item_blocks(item, output_index).len() == texts.len(),
        forall|i: int|
            0 <= i < texts.len() ==> #[trigger] item_blocks(item, output_index)[i] == (
            ContentView::Thinking {
                text: texts[i],
                provider: ThinkingProvider::OpenAIResponses,
                metadata: ThinkingMetadataView::OpenAIResponses {
                    item_id: Some(item_id),
                    output_index: Some(output_index),
                    summary_index: i as u64,
                    encrypted_content: encrypted,
                },
            }),
{
    item_kinds_apart();
    let summary = choose|summary: Seq<JsonView>|
        {
            &&& #[trigger] has(item, "summary"@, JsonView::Array(summary))
            &&& summary.len() == texts.len()
            &&& forall|i: int|
                0 <= i < texts.len() ==> has(
                    #[trigger] summary[i],
                    "text"@,
                    JsonView::Text(texts[i]),
                )
        };
    assert(has(item, "summary"@, JsonView::Array(summary)));
    summaries_are_thoughts(item, Some(output_index), summary, item_id, texts, encrypted);
}

/// The blocks of an output are those of its items, in their order: a message has
/// those of its parts, reasoning those of its summary, and an item of any other
/// kind but a call has none.
pub proof fn outputs_are_read_item_by_item(
    output: Seq<JsonView>,
    item: JsonView,
    kind: Seq<char>,
    output_index: u64,
)
    ensures
        output_blocks(Seq::<JsonView>::empty()).len() == 0,
        output.len() <= u64::MAX ==> output_blocks(output.push(item)) == output_blocks(output)
            + item_blocks(item, output.len() as u64),
        has(item, "type"@, JsonView::Text(kind)) && kind != "message"@ && kind
            != "function_call"@ && kind != "reasoning"@ ==> item_blocks(item, output_index).len()
            == 0,
        has(item, "type"@, JsonView::Text("message"@)) ==> item_blocks(item, output_index)
            == match value_at(item, "content"@) {
            JsonView::Array(parts) => part_blocks(parts),
            _ => Seq::empty(),
        },
        has(item, "type"@, JsonView::Text("reasoning"@)) ==> item_blocks(item, output_index)
            == match value_at(item, "summary"@) {
            JsonView::Array(parts) => summary_blocks(item, Some(output_index), parts),
            _ => Seq::empty(),
        },
{
    item_kinds_apart();
    assert(output.push(item).drop_last() =~= output);
}

/// What a response body comes to: the blocks of its output, or, where those are
/// none, its bare text; the token counts that it reports; and why it ended.
pub proof fn bodies_come_to_answers(value: JsonView)
    ensures
        ({
            let answer = answer_of(value);
            let called = exists|i: int|
                0 <= i < answer.content.len() && (#[trigger] answer.content[i]) is ToolUse;
            let blocks = match value_at(value, "output"@) {
                JsonView::Array(output) => output_blocks(output),
                _ => Seq::empty(),
            };
            let bare = told_or_nothing(value, "output_text"@);
            &&& answer.content == if blocks.len() > 0 {
                blocks
            } else if bare.len() > 0 {
                seq![ContentView::Text { text: bare, cache_control: None }]
            } else {
                Seq::empty()
            }
            &&& counts_as_reported(value, answer.usage)
            &&& answer.stop_reason == ended_because(value, called)
        }),
{
}

/// What decoding a body comes to: an error that the body reports, in its own
/// words and as one that is not worth another try, and else the answer.
pub proof fn bodies_are_decoded(body: Seq<char>, value: JsonView)
    requires
        json_parsed(body) == Ok::<JsonView, Seq<char>>(value),
    ensures
        ({
            let error = value_at(value, "error"@);
            answer_of_parsed(json_parsed(body)) == if error is Null {
                Ok::<ResponseView, ProviderErrorView>(answer_of(value))
            } else {
                Err::<ResponseView, ProviderErrorView>(
                    ProviderErrorView::Api {
                        status: 500,
                        message: match told(error, "message"@) {
                            Some(message) => message,
                            None => "OpenAI Responses request failed"@,
                        },
                        retryable: false,
                    },
                )
            }
        }),
{
}

/// A body that is no JSON is an error that says why.
pub proof fn bad_bodies_are_errors(body: Seq<char>, message: Seq<char>)
    requires
        json_parsed(body) == Err::<JsonView, Seq<char>>(message),
    ensures
        answer_of_parsed(json_parsed(body)) == Err::<ResponseView, ProviderErrorView>(
            ProviderErrorView::Decode(message),
        ),
{
}

/// How HTTP failures are sorted, and which are worth another try: a rate limit
/// and an overload, each with the time to wait that the server gave, and any
/// other failure of the server.
pub proof fn failures_are_sorted(status: u16, message: Seq<char>, retry_after_ms: Option<u64>)
    ensures
        ({
            let error = error_of_status(status, message, retry_after_ms);
            &&& status == 429 ==> error == (ProviderErrorView::RateLimit { retry_after_ms })
            &&& status == 503 ==> error == (ProviderErrorView::Overloaded { retry_after_ms })
            &&& status != 429 && status != 503 ==> match error {
                ProviderErrorView::Api { status: s, message: m, .. } => s == status && m
                    == message,
                _ => false,
            }
            &&& error.is_retryable() <==> status == 429 || 500 <= status <= 599
        }),
{
}

proof fn nothing_to_trim(s: Seq<char>)
    requires
        s.len() > 0,
        !is_whitespace(s[0]),
        !is_whitespace(s.last()),
    ensures
        trimmed(s) == s,
{
}

proof fn front_spaces_trimmed(spaces: Seq<char>, s: Seq<char>)
    requires
        forall|i: int| 0 <= i < spaces.len() ==> is_whitespace(#[trigger] spaces[i]),
    ensures
        trim_front(spaces + s) == trim_front(s),
    decreases spaces.len(),
{
    let all = spaces + s;
    if spaces.len() == 0 {
        assert(all =~= s);
    } else {
        assert(is_whitespace(spaces[0]));
        assert(all.drop_first() =~= spaces.drop_first() + s);
        front_spaces_trimmed(spaces.drop_first(), s);
    }
}

proof fn back_spaces_trimmed(s: Seq<char>, spaces: Seq<char>)
    requires
        forall|i: int| 0 <= i < spaces.len() ==> is_whitespace(#[trigger] spaces[i]),
    ensures
        trim_back(s + spaces) == trim_back(s),
    decreases spaces.len(),
{
    let all = s + spaces;
    if spaces.len() == 0 {
        assert(all =~= s);
    } else {
        assert(is_whitespace(spaces[spaces.len() - 1]));
        assert(all.drop_last() =~= s + spaces.drop_last());
        back_spaces_trimmed(s, spaces.drop_last());
    }
}

/// White space around a text goes away, and nothing of the text does.
pub proof fn spaces_around_are_trimmed(front: Seq<char>, s: Seq<char>, back: Seq<char>)
    requires
        s.len() > 0,
        !is_whitespace(s[0]),
        !is_whitespace(s.last()),
        forall|i: int| 0 <= i < front.len() ==> is_whitespace(#[trigger] front[i]),
        forall|i: int| 0 <= i < back.len() ==> is_whitespace(#[trigger] back[i]),
    ensures
        trimmed(front + s + back) == s,
{
    assert(front + s + back =~= front + (s + back));
    front_spaces_trimmed(front, s + back);
    assert((s + back)[0] == s[0]);
    back_spaces_trimmed(s, back);
    nothing_to_trim(s);
}

/// A time to wait is read as it was written, with white space around it, and a
/// text that is no number gives none.
pub proof fn times_to_wait_are_read(
    front: Seq<char>,
    seconds: u64,
    back: Seq<char>,
    text: Seq<char>,
)
    requires
        forall|i: int| 0 <= i < front.len() ==> is_whitespace(#[trigger] front[i]),
        forall|i: int| 0 <= i < back.len() ==> is_whitespace(#[trigger] back[i]),
    ensures
        retry_seconds(Some(front + decimal(seconds as nat) + back)) == Some(seconds),
        retry_seconds(None) is None,
        (exists|i: int| 0 < i < trimmed(text).len() && !('0' <= #[trigger] trimmed(text)[i] <= '9'))
            ==> retry_seconds(Some(text)) is None,
{
    let written = decimal(seconds as nat);
    decimal_reads_back(seconds as nat);
    assert('0' <= written[0] <= '9');
    assert('0' <= written[written.len() - 1] <= '9');
    spaces_around_are_trimmed(front, written, back);
    if exists|i: int| 0 < i < trimmed(text).len() && !('0' <= #[trigger] trimmed(text)[i] <= '9') {
        let t = trimmed(text);
        let i = choose|i: int| 0 < i < t.len() && !('0' <= #[trigger] t[i] <= '9');
        assert(t.drop_first()[i - 1] == t[i]);
        assert(parsed_unsigned(t) is None);
    }
}

/// The items of a stream that carries events.
pub open spec fn carried(events: Seq<StreamEventView>) -> Seq<ItemView> {
    Seq::new(events.len(), |i: int| Ok(events[i]))
}

/// A collected answer is built as that of a streaming run: the same blocks in
/// the same order, the same text at hand.
pub proof fn collecting_is_like_hearing(events: Seq<StreamEventView>)
    requires
        forall|i: int| 0 <= i < events.len() ==> !((#[trigger] events[i]) is Done),
    ensures
        match collected(carried(events)) {
            Ok(state) => {
                let heard = heard_all(AnswerView::fresh(), events);
                &&& !state.done
                &&& state.content == heard.content
                &&& state.text == heard.buffer
                &&& state.answer().content == heard.flushed().content
                &&& state.stop_reason == match heard.stop {
                    Some(stop) => stop,
                    None => StopReason::EndTurn,
                }
            },
            Err(_) => false,
        },
    decreases events.len(),
{
    let items = carried(events);
    if events.len() > 0 {
        let before = events.drop_last();
        assert forall|i: int| 0 <= i < before.len() implies !((#[trigger] before[i]) is Done) by {
            assert(before[i] == events[i]);
        }
        collecting_is_like_hearing(before);
        assert(items.drop_last() =~= carried(before));
        assert(items.last() == Ok::<StreamEventView, ProviderErrorView>(
            events[events.len() - 1],
        ));
    }
}

proof fn collected_once_more(items: Seq<ItemView>, item: ItemView)
    ensures
        collected(items.push(item)) == match collected(items) {
            Err(error) => Err(error),
            Ok(state) => if state.done {
                Ok(state)
            } else {
                match item {
                    Ok(event) => Ok(state.after(event)),
                    Err(error) => Err(error),
                }
            },
        },
{
    assert(items.push(item).drop_last() =~= items);
}

/// An answer that is streamed block by block, with its token counts, its reason
/// and the end mark, is collected as it was: the same blocks in the same order,
/// the counts and the reason.
pub proof fn streamed_answers_are_collected(response: ResponseView, more: ItemView)
    requires
        streamable(response.content),
    ensures
        ({
            let items = carried(block_events(response.content)).push(
                Ok(StreamEventView::Usage(response.usage)),
            ).push(
                Ok(StreamEventView::MessageDelta { stop_reason: response.stop_reason }),
            ).push(Ok(StreamEventView::Done));
            &&& match collected(items) {
                Ok(state) => state.done && state.answer() == response,
                Err(_) => false,
            }
            &&& collected(items.push(more)) == collected(items)
        }),
{
    let content = response.content;
    let blocks = block_events(content);
    assert forall|i: int| 0 <= i < blocks.len() implies !((#[trigger] blocks[i]) is Done) by {
        assert(blocks[i] == block_event(content[i]));
    }
    collecting_is_like_hearing(blocks);
    streamed_blocks_keep_their_order(content);
    let first = carried(blocks);
    let usage: ItemView = Ok(StreamEventView::Usage(response.usage));
    let reason: ItemView = Ok(
        StreamEventView::MessageDelta { stop_reason: response.stop_reason },
    );
    let end: ItemView = Ok(StreamEventView::Done);
    collected_once_more(first, usage);
    collected_once_more(first.push(usage), reason);
    collected_once_more(first.push(usage).push(reason), end);
    collected_once_more(first.push(usage).push(reason).push(end), more);
}

/// The first failure before the end mark is what a stream comes to, whatever
/// comes behind it.
pub proof fn the_first_failure_stands(
    items: Seq<ItemView>,
    error: ProviderErrorView,
    rest: Seq<ItemView>,
)
    requires
        match collected(items) {
            Ok(state) => !state.done,
            Err(_) => false,
        },
    ensures
        collected(items.push(Err(error)) + rest) == Err::<CollectedView, ProviderErrorView>(error),
    decreases rest.len(),
{
    let failed = items.push(Err(error));
    if rest.len() == 0 {
        collected_once_more(items, Err(error));
        assert(failed + rest =~= failed);
    } else {
        the_first_failure_stands(items, error, rest.drop_last());
        assert((failed + rest).drop_last() =~= failed + rest.drop_last());
    }
}

/// The last token counts and the last reason of a stream stand, before its end.
pub proof fn last_counts_and_reason_stand(
    items: Seq<ItemView>,
    usage: Usage,
    stop_reason: StopReason,
)
    requires
        match collected(items) {
            Ok(state) => !state.done,
            Err(_) => false,
        },
    ensures
        match collected(items.push(Ok(StreamEventView::Usage(usage)))) {
            Ok(state) => state == (CollectedView { usage, ..collected(items)->Ok_0 }),
            Err(_) => false,
        },
        match collected(items.push(Ok(StreamEventView::MessageDelta { stop_reason }))) {
            Ok(state) => state == (CollectedView { stop_reason, ..collected(items)->Ok_0 }),
            Err(_) => false,
        },
{
    collected_once_more(items, Ok(StreamEventView::Usage(usage)));
    collected_once_more(items, Ok(StreamEventView::MessageDelta { stop_reason }));
}

/// Whatever else fails is not worth another try unless it says so.
pub proof fn other_failures_are_final(text: Seq<char>, status: u16, retryable: bool)
    ensures
        !ProviderErrorView::Http(text).is_retryable(),
        !ProviderErrorView::Decode(text).is_retryable(),
        !ProviderErrorView::Other(text).is_retryable(),
        (ProviderErrorView::Api { status, message: text, retryable }).is_retryable() == retryable,
        (ProviderErrorView::RateLimit { retry_after_ms: None }).is_retryable(),
        (ProviderErrorView::Overloaded { retry_after_ms: None }).is_retryable(),
{
}

/// A part that says nothing comes to no block, and one that does comes to its
/// text, whatever stands before it.
pub proof fn parts_are_read_one_by_one(parts: Seq<JsonView>, part: JsonView)
    ensures
        ({
            let kind = told(part, "type"@);
            let text = if kind == Some("output_text"@) {
                told_or_nothing(part, "text"@)
            } else if kind == Some("refusal"@) {
                told_or_nothing(part, "refusal"@)
            } else {
                Seq::empty()
            };
            part_blocks(parts.push(part)) == if text.len() > 0 {
                part_blocks(parts).push(ContentView::Text { text, cache_control: None })
            } else {
                part_blocks(parts)
            }
        }),
        part_blocks(Seq::<JsonView>::empty()).len() == 0,
{
    item_kinds_apart();
    assert(parts.push(part).drop_last() =~= parts);
}

/// A part of a reasoning summary comes to a thinking block in its place, where
/// it has a text.
pub proof fn summaries_are_read_one_by_one(
    item: JsonView,
    output_index: Option<u64>,
    parts: Seq<JsonView>,
    part: JsonView,
)
    requires
        parts.len() <= u64::MAX,
    ensures
        summary_blocks(item, output_index, parts.push(part)) == match told(part, "text"@) {
            Some(text) => summary_blocks(item, output_index, parts).push(
                ContentView::Thinking {
                    text,
                    provider: ThinkingProvider::OpenAIResponses,
                    metadata: ThinkingMetadataView::OpenAIResponses {
                        item_id: told(item, "id"@),
                        output_index,
                        summary_index: parts.len() as u64,
                        encrypted_content: told(item, "encrypted_content"@),
                    },
                },
            ),
            None => summary_blocks(item, output_index, parts),
        },
        summary_blocks(item, output_index, Seq::<JsonView>::empty()).len() == 0,
{
    assert(parts.push(part).drop_last() =~= parts);
}

} // verus!
