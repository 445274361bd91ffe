//! What a turn does with what the provider sends, tools answer and guards say:
//! the message it adds, what the consumer sees and how the run goes on.
use crate::agent::{
    at_boundary, at_report, calls_of, text_of_blocks, AgentErrorView, AgentResultView, AnswerView,
    RunActionView, RunPhase, RunReplyView, RunSettingsView, RunView,
};
use crate::agent_laws::{after_all, all_expected, block_event, block_events, heard_all};
use crate::error::ProviderErrorView;
use crate::guard::GuardEvalView;
use crate::message::{ContentView, MessageView, Role, StopReason, Usage};
use crate::prompt_policy::AppliedPolicyView;
use crate::provider::{RequestView, ResponseView, SystemBlockView};
use crate::registry::named_position_holds;
use crate::stream::StreamEventView;
use crate::tool::{ToolCallView, ToolClass, ToolSpecView};
use vstd::prelude::*;

verus! {

/// The calls and the text of an answer, block by block: each tool call is a
/// call as it stands, each text is part of the text, and nothing else adds to
/// either; the order is that of the blocks.
pub proof fn answers_are_read_block_by_block(
    first: Seq<ContentView>,
    second: Seq<ContentView>,
    block: ContentView,
)
    ensures
        calls_of(first + second) == calls_of(first) + calls_of(second),
        text_of_blocks(first + second) == text_of_blocks(first) + text_of_blocks(second),
        calls_of(seq![block]) == match block {
            ContentView::ToolUse { id, name, input } => seq![ToolCallView { id, name, input }],
            _ => Seq::empty(),
        },
        text_of_blocks(seq![block]) == match block {
            ContentView::Text { text, .. } => text,
            _ => Seq::empty(),
        },
        calls_of(first).len() == 0 <==> forall|i: int|
            0 <= i < first.len() ==> !((#[trigger] first[i]) is ToolUse),
    decreases first.len() + second.len(),
{
    let both = first + second;
    assert(seq![block].drop_last() =~= Seq::<ContentView>::empty());
    reveal_with_fuel(calls_of, 2);
    reveal_with_fuel(text_of_blocks, 2);
    if second.len() == 0 {
        assert(both =~= first);
        assert(calls_of(first) + calls_of(second) =~= calls_of(first));
        assert(text_of_blocks(first) + text_of_blocks(second) =~= text_of_blocks(first));
        if first.len() > 0 {
            answers_are_read_block_by_block(first.drop_last(), second, block);
            assert forall|i: int| 0 <= i < first.drop_last().len() implies first.drop_last()[i]
                == #[trigger] first[i] by {}
            if calls_of(first).len() == 0 {
                assert forall|i: int| 0 <= i < first.len() implies !((
                #[trigger] first[i]) is ToolUse) by {
                    if i < first.len() - 1 {
                        assert(!(first.drop_last()[i] is ToolUse));
                    }
                }
            }
            if forall|i: int| 0 <= i < first.len() ==> !((#[trigger] first[i]) is ToolUse) {
                assert(!(first[first.len() - 1] is ToolUse));
                assert(calls_of(first.drop_last()).len() == 0);
            }
        }
    } else {
        answers_are_read_block_by_block(first, second.drop_last(), block);
        assert(both.drop_last() =~= first + second.drop_last());
        assert(both.last() == second.last());
        assert(calls_of(both) =~= calls_of(first) + calls_of(second));
        assert(text_of_blocks(both) =~= text_of_blocks(first) + text_of_blocks(second));
    }
}

/// Whether a stream can carry blocks one by one: no text is empty, marked for
/// a cache or right behind another text, and no block is a tool's answer.
pub open spec fn streamable(content: Seq<ContentView>) -> bool {
    forall|i: int|
        0 <= i < content.len() ==> match #[trigger] content[i] {
            ContentView::Text { text, cache_control } => text.len() > 0 && cache_control is None
                && (i > 0 ==> !(content[i - 1] is Text)),
            ContentView::ToolResult { .. } => false,
            _ => true,
        }
}

proof fn streamed_so_far(content: Seq<ContentView>)
    requires
        streamable(content),
    ensures
        ({
            let answer = heard_all(AnswerView::fresh(), block_events(content));
            if content.len() > 0 && content.last() is Text {
                answer.content == content.drop_last() && content.last() == (ContentView::Text {
                    text: answer.buffer,
                    cache_control: None,
                })
            } else {
                answer.content == content && answer.buffer.len() == 0
            }
        }),
    decreases content.len(),
{
    let events = block_events(content);
    if content.len() == 0 {
        assert(AnswerView::fresh().content =~= content);
    } else {
        let before = content.drop_last();
        assert forall|i: int| 0 <= i < before.len() implies match #[trigger] before[i] {
            ContentView::Text { text, cache_control } => text.len() > 0 && cache_control is None
                && (i > 0 ==> !(before[i - 1] is Text)),
            ContentView::ToolResult { .. } => false,
            _ => true,
        } by {
            assert(before[i] == content[i]);
            if i > 0 {
                assert(before[i - 1] == content[i - 1]);
            }
        }
        streamed_so_far(before);
        assert(events.drop_last() =~= block_events(before));
        assert(events.last() == block_event(content[content.len() - 1]));
        let heard = heard_all(AnswerView::fresh(), events.drop_last());
        let last = content[content.len() - 1];
        assert(content =~= before.push(last));
        if before.len() > 0 && before.last() is Text {
            assert(before.last() == content[content.len() - 2]);
            assert(before =~= before.drop_last().push(before.last()));
        }
        match last {
            ContentView::Text { text, .. } => {
                assert(heard.buffer + text =~= text);
            },
            _ => {},
        }
        assert(heard.after(events.last()).content =~= if last is Text {
            before
        } else {
            content
        });
    }
}

/// An answer that is streamed block by block comes to the same blocks in the
/// same order: text that came before a call or a thought stays in front of it.
pub proof fn streamed_blocks_keep_their_order(content: Seq<ContentView>)
    requires
        streamable(content),
    ensures
        heard_all(AnswerView::fresh(), block_events(content)).flushed().content == content,
{
    streamed_so_far(content);
    let heard = heard_all(AnswerView::fresh(), block_events(content));
    if content.len() > 0 && content.last() is Text {
        assert(content[content.len() - 1] is Text);
        assert(content =~= content.drop_last().push(content.last()));
    }
    assert(heard.flushed().content =~= content);
}

/// A block that comes whole stands behind everything that came before it,
/// text that was not a block yet included.
pub proof fn blocks_stand_behind_what_came_before(answer: AnswerView, block: ContentView)
    requires
        block is Thinking || block is ToolUse,
    ensures
        ({
            let next = answer.after(block_event(block));
            &&& next.buffer.len() == 0
            &&& next.text == answer.text
            &&& next.content == if answer.buffer.len() == 0 {
                answer.content + seq![block]
            } else {
                answer.content + seq![
                    ContentView::Text { text: answer.buffer, cache_control: None },
                    block,
                ]
            }
            &&& next.calls == answer.calls + calls_of(seq![block])
            &&& next.stop == answer.stop
            &&& next.usage == answer.usage
        }),
{
    answers_are_read_block_by_block(Seq::empty(), Seq::empty(), block);
    let next = answer.after(block_event(block));
    assert(next.content =~= if answer.buffer.len() == 0 {
        answer.content + seq![block]
    } else {
        answer.content + seq![
            ContentView::Text { text: answer.buffer, cache_control: None },
            block,
        ]
    });
    assert(next.calls =~= answer.calls + calls_of(seq![block]));
}

/// Text may come in any number of pieces: two pieces are one piece with the
/// text of both.
pub proof fn text_may_come_in_pieces(answer: AnswerView, first: Seq<char>, second: Seq<char>)
    ensures
        answer.after(StreamEventView::ContentDelta(first)).after(
            StreamEventView::ContentDelta(second),
        ) == answer.after(StreamEventView::ContentDelta(first + second)),
        answer.after(StreamEventView::ContentDelta(first)).text == answer.text + first,
        answer.after(StreamEventView::ContentDelta(first)).content == answer.content,
        answer.after(StreamEventView::ContentDelta(first)).calls == answer.calls,
{
    assert(answer.text + first + second =~= answer.text + (first + second));
    assert(answer.buffer + first + second =~= answer.buffer + (first + second));
}

/// Whether a count is the larger of two.
pub open spec fn is_larger(count: u32, a: u32, b: u32) -> bool {
    count >= a && count >= b && (count == a || count == b)
}

/// The reason and the token counts of an answer: the last reason stands, each
/// count is the largest that was reported, and neither changes what was said.
pub proof fn reason_and_counts_are_kept(answer: AnswerView, stop_reason: StopReason, usage: Usage)
    ensures
        answer.after(StreamEventView::MessageDelta { stop_reason }) == (AnswerView {
            stop: Some(stop_reason),
            ..answer
        }),
        ({
            let next = answer.after(StreamEventView::Usage(usage));
            &&& next == (AnswerView { usage: next.usage, ..answer })
            &&& is_larger(next.usage.input_tokens, answer.usage.input_tokens, usage.input_tokens)
            &&& is_larger(
                next.usage.output_tokens,
                answer.usage.output_tokens,
                usage.output_tokens,
            )
            &&& is_larger(
                next.usage.cache_creation_input_tokens,
                answer.usage.cache_creation_input_tokens,
                usage.cache_creation_input_tokens,
            )
            &&& is_larger(
                next.usage.cache_read_input_tokens,
                answer.usage.cache_read_input_tokens,
                usage.cache_read_input_tokens,
            )
        }),
{
}

/// Whether a count is the sum of two, or the largest count where the sum is
/// larger.
pub open spec fn is_sum(count: u32, a: u32, b: u32) -> bool {
    if a + b <= u32::MAX {
        count == a + b
    } else {
        count == u32::MAX
    }
}

/// Whether token counts are the sum of two, count by count.
pub open spec fn counts_add_up(total: Usage, a: Usage, b: Usage) -> bool {
    &&& is_sum(total.input_tokens, a.input_tokens, b.input_tokens)
    &&& is_sum(total.output_tokens, a.output_tokens, b.output_tokens)
    &&& is_sum(
        total.cache_creation_input_tokens,
        a.cache_creation_input_tokens,
        b.cache_creation_input_tokens,
    )
    &&& is_sum(total.cache_read_input_tokens, a.cache_read_input_tokens, b.cache_read_input_tokens)
}

/// What the consumer and the trace see of the provider's events: text,
/// reasoning and calls go to the consumer as they came, the reason, the token
/// counts and the end mark to the trace alone, and events that no provider
/// sends to nobody. The answer hears each of them.
pub proof fn provider_events_are_passed_on(run: RunView, event: StreamEventView)
    requires
        run.phase == RunPhase::Pulling,
    ensures
        run.expects(RunReplyView::PulledEvent(event)),
        ({
            let (next, action) = run.after(RunReplyView::PulledEvent(event));
            &&& match event {
                StreamEventView::ContentDelta(_)
                | StreamEventView::ThinkingDelta { .. }
                | StreamEventView::ThinkingBlock { .. }
                | StreamEventView::ToolUse { .. } => action == RunActionView::Emit(event)
                    && next.phase == RunPhase::Forwarding,
                StreamEventView::MessageDelta { .. } | StreamEventView::Usage(_) => action
                    == RunActionView::Trace(event) && next.phase == RunPhase::Tracing,
                StreamEventView::Done => action == RunActionView::Trace(event) && next.phase
                    == RunPhase::TracingLast,
                _ => action == RunActionView::Pull && next == run,
            }
            &&& next == (RunView {
                answer: run.answer.after(event),
                phase: next.phase,
                ..run
            })
        }),
        event is ThinkingDelta || event is Done || event is TurnStarted
            || event is ToolCallPending ==> run.answer.after(event) == run.answer,
{
}

/// The replies with which a driver passes on the events of a provider.
pub open spec fn stream_replies(events: Seq<StreamEventView>) -> Seq<RunReplyView>
    decreases events.len(),
{
    if events.len() == 0 {
        Seq::empty()
    } else {
        let event = events.last();
        stream_replies(events.drop_last()) + match event {
            StreamEventView::ContentDelta(_)
            | StreamEventView::ThinkingDelta { .. }
            | StreamEventView::ThinkingBlock { .. }
            | StreamEventView::ToolUse { .. } => seq![
                RunReplyView::PulledEvent(event),
                RunReplyView::Sent { delivered: true },
            ],
            StreamEventView::MessageDelta { .. } | StreamEventView::Usage(_) => seq![
                RunReplyView::PulledEvent(event),
                RunReplyView::Traced,
            ],
            _ => seq![RunReplyView::PulledEvent(event)],
        }
    }
}

proof fn replied_once_more(run: RunView, replies: Seq<RunReplyView>, reply: RunReplyView)
    ensures
        after_all(run, replies.push(reply)) == after_all(run, replies).after(reply).0,
        all_expected(run, replies.push(reply)) == (all_expected(run, replies) && after_all(
            run,
            replies,
        ).expects(reply)),
{
    assert(replies.push(reply).drop_last() =~= replies);
}

/// A run that passes on the events of a provider has heard all of them, in
/// their order, and waits for more.
pub proof fn streams_are_heard_in_order(run: RunView, events: Seq<StreamEventView>)
    requires
        run.phase == RunPhase::Pulling,
        forall|i: int| 0 <= i < events.len() ==> !((#[trigger] events[i]) is Done),
    ensures
        all_expected(run, stream_replies(events)),
        after_all(run, stream_replies(events)) == (RunView {
            answer: heard_all(run.answer, events),
            ..run
        }),
    decreases events.len(),
{
    if events.len() > 0 {
        let event = events.last();
        assert(event == events[events.len() - 1]);
        assert forall|i: int| 0 <= i < events.drop_last().len() implies !((
        #[trigger] events.drop_last()[i]) is Done) by {
            assert(events.drop_last()[i] == events[i]);
        }
        streams_are_heard_in_order(run, events.drop_last());
        let before = stream_replies(events.drop_last());
        let pulled = RunReplyView::PulledEvent(event);
        let heard = after_all(run, before);
        replied_once_more(run, before, pulled);
        provider_events_are_passed_on(heard, event);
        let more = before.push(pulled);
        match event {
            StreamEventView::ContentDelta(_)
            | StreamEventView::ThinkingDelta { .. }
            | StreamEventView::ThinkingBlock { .. }
            | StreamEventView::ToolUse { .. } => {
                let sent = RunReplyView::Sent { delivered: true };
                replied_once_more(run, more, sent);
                assert(stream_replies(events) =~= more.push(sent));
            },
            StreamEventView::MessageDelta { .. } | StreamEventView::Usage(_) => {
                replied_once_more(run, more, RunReplyView::Traced);
                assert(stream_replies(events) =~= more.push(RunReplyView::Traced));
            },
            _ => {
                assert(stream_replies(events) =~= more);
            },
        }
    }
}

proof fn heard_one_more(answer: AnswerView, events: Seq<StreamEventView>, event: StreamEventView)
    ensures
        heard_all(answer, events.push(event)) == heard_all(answer, events).after(event),
{
    assert(events.push(event).drop_last() =~= events);
}

proof fn calls_and_text_heard(content: Seq<ContentView>)
    requires
        streamable(content),
    ensures
        ({
            let answer = heard_all(AnswerView::fresh(), block_events(content));
            &&& answer.calls == calls_of(content)
            &&& answer.text == text_of_blocks(content)
            &&& answer.stop is None
            &&& answer.usage == Usage::zero()
        }),
    decreases content.len(),
{
    if content.len() > 0 {
        let before = content.drop_last();
        assert(forall|i: int| 0 <= i < before.len() ==> #[trigger] before[i] == content[i]);
        assert forall|i: int| 0 <= i < before.len() implies match #[trigger] before[i] {
            ContentView::Text { text, cache_control } => text.len() > 0 && cache_control is None
                && (i > 0 ==> !(before[i - 1] is Text)),
            ContentView::ToolResult { .. } => false,
            _ => true,
        } by {
            assert(before[i] == content[i]);
        }
        calls_and_text_heard(before);
        let events = block_events(content);
        assert(events.drop_last() =~= block_events(before));
        assert(events.last() == block_event(content[content.len() - 1]));
    }
}

/// A streaming run adds the same message, counts the same tokens and goes on
/// in the same way as a run that is handed the answer whole.
pub proof fn streaming_comes_to_the_same(run: RunView, response: ResponseView)
    requires
        run.phase == RunPhase::Pulling,
        run.answer == AnswerView::fresh(),
        streamable(response.content),
    ensures
        ({
            let events = block_events(response.content).push(
                StreamEventView::Usage(response.usage),
            ).push(StreamEventView::MessageDelta { stop_reason: response.stop_reason });
            let heard = after_all(run, stream_replies(events));
            let asked = RunView { phase: RunPhase::Answering, ..run };
            &&& all_expected(run, stream_replies(events))
            &&& heard.expects(RunReplyView::PulledEnd)
            &&& heard.after(RunReplyView::PulledEnd) == asked.after(
                RunReplyView::Answered(response),
            )
            &&& heard.after(RunReplyView::PulledEvent(StreamEventView::Done)).0.after(
                RunReplyView::Traced,
            ) == asked.after(RunReplyView::Answered(response))
        }),
{
    let content = response.content;
    let blocks = block_events(content);
    let usage = StreamEventView::Usage(response.usage);
    let reason = StreamEventView::MessageDelta { stop_reason: response.stop_reason };
    let events = blocks.push(usage).push(reason);
    assert forall|i: int| 0 <= i < events.len() implies !((#[trigger] events[i]) is Done) by {
        if i < content.len() {
            assert(events[i] == block_event(content[i]));
        }
    }
    streams_are_heard_in_order(run, events);
    heard_one_more(AnswerView::fresh(), blocks, usage);
    heard_one_more(AnswerView::fresh(), blocks.push(usage), reason);
    streamed_blocks_keep_their_order(content);
    calls_and_text_heard(content);
    let heard = after_all(run, stream_replies(events));
    let whole = AnswerView::whole(response);
    assert(heard.answer.flushed() =~~= whole);
    assert(whole.flushed() =~~= whole);
}

/// Whether a run goes on as an answer asks: without calls, or where the model
/// ended its turn, the guards are asked; otherwise the calls are next.
pub open spec fn goes_on_as_asked(
    next: RunView,
    action: RunActionView,
    content: Seq<ContentView>,
    stop_reason: StopReason,
) -> bool {
    if calls_of(content).len() == 0 || stop_reason == StopReason::EndTurn {
        next.phase == RunPhase::GuardingFinish && action is AskGuards
    } else {
        next.phase == RunPhase::CheckingTools && action is CheckCancelled
    }
}

/// A whole answer joins the conversation as it came, its tokens are counted,
/// and the run goes on as the answer asks.
pub proof fn whole_answers_join_the_conversation(run: RunView, response: ResponseView)
    requires
        run.phase == RunPhase::Answering,
    ensures
        ({
            let (next, action) = run.after(RunReplyView::Answered(response));
            let message = MessageView { role: Role::Assistant, content: response.content };
            &&& next.history == run.history.push(message)
            &&& next.new_messages == run.new_messages.push(message)
            &&& next.answer.content == response.content
            &&& next.answer.calls == calls_of(response.content)
            &&& next.answer.text == text_of_blocks(response.content)
            &&& next.last_stop == Some(response.stop_reason)
            &&& counts_add_up(next.usage, run.usage, response.usage)
            &&& next.turn == run.turn
            &&& next.settings == run.settings
            &&& next.tools == run.tools
            &&& goes_on_as_asked(next, action, response.content, response.stop_reason)
        }),
{
}

/// A streamed answer joins the conversation when its stream ends: its blocks,
/// and behind them the text that was not a block yet. Without a reason of its
/// own it counts as the end of the model's turn.
pub proof fn streamed_answers_join_the_conversation(run: RunView, reply: RunReplyView)
    requires
        (run.phase == RunPhase::Pulling && reply == RunReplyView::PulledEnd) || (run.phase
            == RunPhase::TracingLast && reply == RunReplyView::Traced),
        run.answer.calls == calls_of(run.answer.content),
    ensures
        ({
            let (next, action) = run.after(reply);
            let content = if run.answer.buffer.len() == 0 {
                run.answer.content
            } else {
                run.answer.content + seq![
                    ContentView::Text { text: run.answer.buffer, cache_control: None },
                ]
            };
            let message = MessageView { role: Role::Assistant, content };
            let stop_reason = match run.answer.stop {
                Some(stop) => stop,
                None => StopReason::EndTurn,
            };
            &&& next.history == run.history.push(message)
            &&& next.new_messages == run.new_messages.push(message)
            &&& next.last_stop == Some(stop_reason)
            &&& counts_add_up(next.usage, run.usage, run.answer.usage)
            &&& next.turn == run.turn
            &&& goes_on_as_asked(next, action, content, stop_reason)
        }),
{
    let buffered = seq![ContentView::Text { text: run.answer.buffer, cache_control: None }];
    answers_are_read_block_by_block(run.answer.content, buffered, buffered[0]);
    assert(run.answer.content + buffered =~= run.answer.content.push(buffered[0]));
    assert(calls_of(run.answer.content) + Seq::<ToolCallView>::empty() =~= calls_of(
        run.answer.content,
    ));
}

/// What the provider is asked: the whole conversation with the model, limits,
/// tools and settings of the run, and behind the system prompt a block for
/// each prompt policy, under a marker with its name, in the order given.
pub open spec fn asks_as_configured(
    request: RequestView,
    run: RunView,
    policies: Seq<AppliedPolicyView>,
) -> bool {
    let given = match run.settings.system {
        Some(blocks) => blocks,
        None => Seq::empty(),
    };
    &&& request.model == run.settings.model
    &&& request.messages == run.history
    &&& request.tools == run.settings.tools
    &&& request.max_tokens == run.settings.max_tokens
    &&& request.temperature == run.settings.temperature
    &&& request.thinking == run.settings.thinking
    &&& policies.len() == 0 ==> request.system == run.settings.system
    &&& policies.len() > 0 ==> {
        &&& request.system is Some
        &&& request.system->0.len() == given.len() + policies.len()
        &&& forall|i: int|
            0 <= i < given.len() ==> #[trigger] request.system->0[i] == given[i]
        &&& forall|i: int|
            0 <= i < policies.len() ==> request.system->0[given.len() + i] == (SystemBlockView {
                text: "<!-- runtime policy: "@ + (#[trigger] policies[i]).name + " -->\n"@
                    + policies[i].content,
                cache_control: None,
            })
    }
}

/// The provider is asked with everything that is configured, and the answer
/// starts out empty.
pub proof fn requests_carry_the_settings(run: RunView, policies: Seq<AppliedPolicyView>)
    requires
        run.phase == RunPhase::Gathering,
    ensures
        ({
            let (next, action) = run.after(RunReplyView::Policies(policies));
            &&& if run.settings.streaming {
                next.phase == RunPhase::Opening && match action {
                    RunActionView::Open(request) => asks_as_configured(request, run, policies),
                    _ => false,
                }
            } else {
                next.phase == RunPhase::Answering && match action {
                    RunActionView::Complete(request) => asks_as_configured(
                        request,
                        run,
                        policies,
                    ),
                    _ => false,
                }
            }
            &&& next.answer.text.len() == 0 && next.answer.buffer.len() == 0
            &&& next.answer.content.len() == 0 && next.answer.calls.len() == 0
            &&& next.answer.stop is None
            &&& next.answer.usage == (Usage {
                input_tokens: 0,
                output_tokens: 0,
                cache_creation_input_tokens: 0,
                cache_read_input_tokens: 0,
            })
            &&& next == (RunView { answer: next.answer, told: 0, phase: next.phase, ..run })
        }),
        ({
            let opening = RunView { phase: RunPhase::Opening, ..run };
            opening.after(RunReplyView::Opened) == (
                RunView { phase: RunPhase::Pulling, ..run },
                RunActionView::Pull,
            )
        }),
{
}

/// Each turn begins by being told, where the run streams, and a look at
/// cancellation; then the policies are gathered.
pub proof fn turns_begin(run: RunView, turn_id: Seq<char>)
    requires
        run.phase == RunPhase::Starting,
    ensures
        ({
            let (next, action) = run.after(RunReplyView::TurnBegun(turn_id));
            if run.settings.streaming {
                &&& action == RunActionView::Emit(StreamEventView::TurnStarted { turn_id })
                &&& next.phase == RunPhase::Announcing
                &&& next.after(RunReplyView::Sent { delivered: true }) == (
                    RunView { phase: RunPhase::CheckingStart, ..run },
                    RunActionView::CheckCancelled,
                )
            } else {
                next == (RunView { phase: RunPhase::CheckingStart, ..run }) && action
                    is CheckCancelled
            }
        }),
        ({
            let checking = RunView { phase: RunPhase::CheckingStart, ..run };
            let (next, action) = checking.after(RunReplyView::CancelChecked { cancelled: false });
            next == (RunView { phase: RunPhase::Gathering, ..run }) && action is GatherPolicies
        }),
{
}

/// A run without any turn ends at once, having done nothing; every other run
/// starts with its first turn, on the caller's messages.
pub proof fn runs_begin(
    settings: RunSettingsView,
    tools: Seq<ToolSpecView>,
    messages: Seq<MessageView>,
)
    ensures
        ({
            let (run, action) = RunView::begun(settings, tools, messages);
            &&& run.history == messages
            &&& run.new_messages.len() == 0
            &&& run.settings == settings
            &&& run.tools == tools
            &&& run.turn == 0
            &&& run.last_stop is None
            &&& run.usage == (Usage {
                input_tokens: 0,
                output_tokens: 0,
                cache_creation_input_tokens: 0,
                cache_read_input_tokens: 0,
            })
            &&& if settings.max_turns > 0 {
                run.phase == RunPhase::Starting && action is BeginTurn
            } else {
                run.phase == RunPhase::Over && match action {
                    RunActionView::Finish(
                        Err(AgentErrorView::MaxTurnsReached { turns, partial }),
                    ) => {
                        &&& turns == 0
                        &&& partial.new_messages.len() == 0
                        &&& partial.text.len() == 0
                        &&& partial.usage == run.usage
                        &&& partial.stop_reason == StopReason::EndTurn
                    },
                    _ => false,
                }
            }
        }),
{
}

/// Whether a run goes on with its next turn, or ends for want of one with
/// everything that it has done.
pub open spec fn turns_on(run: RunView, next: RunView, action: RunActionView) -> bool {
    if run.turn + 1 < run.settings.max_turns {
        &&& action is BeginTurn
        &&& next == (RunView { turn: (run.turn + 1) as usize, phase: RunPhase::Starting, ..run })
    } else {
        &&& next == (RunView { phase: RunPhase::Over, ..run })
        &&& action == RunActionView::Finish(
            Err(
                AgentErrorView::MaxTurnsReached {
                    turns: run.settings.max_turns,
                    partial: AgentResultView {
                        new_messages: run.new_messages,
                        text: Seq::empty(),
                        usage: run.usage,
                        stop_reason: match run.last_stop {
                            Some(stop) => stop,
                            None => StopReason::EndTurn,
                        },
                    },
                },
            ),
        )
    }
}

/// Whether a run hands out what it has done as its result.
pub open spec fn ends_well(run: RunView, next: RunView, action: RunActionView) -> bool {
    &&& next == (RunView { phase: RunPhase::Over, ..run })
    &&& action == RunActionView::Finish(
        Ok(
            AgentResultView {
                new_messages: run.new_messages,
                text: run.answer.text,
                usage: run.usage,
                stop_reason: match run.last_stop {
                    Some(stop) => stop,
                    None => StopReason::EndTurn,
                },
            },
        ),
    )
}

/// A conversation and what is new of it, with one more message.
pub open spec fn said(run: RunView, content: Seq<ContentView>) -> RunView {
    let message = MessageView { role: Role::User, content };
    RunView {
        history: run.history.push(message),
        new_messages: run.new_messages.push(message),
        ..run
    }
}

/// A conversation with what a user queued, where anything was.
pub open spec fn said_if_any(run: RunView, content: Seq<ContentView>) -> RunView {
    if content.len() == 0 {
        run
    } else {
        said(run, content)
    }
}

/// What the guards say is done: where none objects, a run whose answer had
/// nothing to run ends with it and any other goes on with what was queued; a
/// guard that sends the agent on puts its prompt in front of what was queued;
/// a guard that ends the run ends it with what it has done. A streaming run
/// tells the consumer first.
pub proof fn guards_have_the_last_word(
    run: RunView,
    eval: GuardEvalView,
    queued: Seq<ContentView>,
)
    requires
        run.phase == RunPhase::GuardingFinish || run.phase == RunPhase::GuardingTools,
        run.turn < run.settings.max_turns,
    ensures
        ({
            let (next, action) = run.after(RunReplyView::Guarded { eval, queued });
            match eval {
                GuardEvalView::Stop => if run.phase == RunPhase::GuardingFinish {
                    ends_well(run, next, action)
                } else {
                    turns_on(said_if_any(run, queued), next, action)
                },
                GuardEvalView::Abort { guard_name, reason } => if run.settings.streaming {
                    &&& action == RunActionView::Emit(
                        StreamEventView::GuardAborted { guard_name, reason },
                    )
                    &&& forall|delivered: bool|
                        {
                            let told = #[trigger] next.after(RunReplyView::Sent { delivered });
                            ends_well(run, told.0, told.1)
                        }
                } else {
                    ends_well(run, next, action)
                },
                GuardEvalView::Continue { guard_name, prompt, iteration } => {
                    let prompted = said_if_any(
                        said(run, seq![ContentView::Text { text: prompt, cache_control: None }]),
                        queued,
                    );
                    if run.settings.streaming {
                        let told = next.after(RunReplyView::Sent { delivered: true });
                        &&& action == RunActionView::Emit(
                            StreamEventView::ContinuationInjected { guard_name, iteration },
                        )
                        &&& turns_on(prompted, told.0, told.1)
                    } else {
                        turns_on(prompted, next, action)
                    }
                },
            }
        }),
{
}

/// What the guards get to see: how many turns there were, the answer, and its
/// calls, each as its tool's name and its id.
pub proof fn guards_see_the_answer(run: RunView, reply: RunReplyView)
    requires
        run.expects(reply),
        run.turn < run.settings.max_turns,
    ensures
        match run.after(reply).1 {
            RunActionView::AskGuards(snapshot) => {
                let answer = run.after(reply).0.answer;
                &&& snapshot.turn_count == run.turn + 1
                &&& snapshot.last_assistant_message == Some(
                    MessageView { role: Role::Assistant, content: answer.content },
                )
                &&& snapshot.recent_tool_calls.len() == answer.calls.len()
                &&& forall|i: int|
                    0 <= i < answer.calls.len() ==> #[trigger] snapshot.recent_tool_calls[i]
                        == answer.calls[i].name + ":"@ + answer.calls[i].id
            },
            _ => true,
        },
{
}

/// The calls of an answer run, all of them and in their order; their results
/// join the conversation as they came and what was queued stands behind them.
/// Then, unless the run is cancelled, the guards are asked.
pub proof fn calls_run_and_results_join(
    run: RunView,
    results: Seq<ContentView>,
    queued: Seq<ContentView>,
)
    requires
        run.phase == RunPhase::CheckingTools,
        run.answer.calls.len() <= usize::MAX,
    ensures
        ({
            let (checked, action) = run.after(RunReplyView::CancelChecked { cancelled: false });
            &&& !run.settings.streaming || run.answer.calls.len() == 0 ==> action
                == RunActionView::RunTools(run.answer.calls) && checked == (RunView {
                phase: RunPhase::RunningTools,
                ..run
            })
            &&& checked == (RunView { told: checked.told, phase: checked.phase, ..run })
        }),
        ({
            let running = RunView { phase: RunPhase::RunningTools, ..run };
            let (ran, action) = running.after(RunReplyView::ToolsDone { results, queued });
            &&& ran == (RunView {
                phase: RunPhase::CheckingEnd,
                ..said_if_any(said(run, results), queued)
            })
            &&& action is CheckCancelled
            &&& ran.after(RunReplyView::CancelChecked { cancelled: false }).1 is AskGuards
            &&& ran.after(RunReplyView::CancelChecked { cancelled: false }).0 == (RunView {
                phase: RunPhase::GuardingTools,
                ..ran
            })
        }),
{
}

/// In a streaming run every call is told before the calls run, with the class
/// of the registered tool; a tool that is not registered counts as mutating.
pub proof fn calls_are_told(run: RunView, at: int)
    requires
        run.settings.streaming,
        0 <= at < run.answer.calls.len() <= usize::MAX,
        at == 0 ==> run.phase == RunPhase::CheckingTools,
        at > 0 ==> run.phase == RunPhase::Pending && run.told == at - 1,
    ensures
        ({
            let reply = if at == 0 {
                RunReplyView::CancelChecked { cancelled: false }
            } else {
                RunReplyView::Sent { delivered: true }
            };
            let (next, action) = run.after(reply);
            let call = run.answer.calls[at];
            &&& next == (RunView { told: at as usize, phase: RunPhase::Pending, ..run })
            &&& match action {
                RunActionView::Emit(
                    StreamEventView::ToolCallPending { id, name, input, class },
                ) => {
                    &&& id == call.id
                    &&& name == call.name
                    &&& input == call.input
                    &&& forall|k: int|
                        0 <= k < run.tools.len() && (#[trigger] run.tools[k]).name == call.name
                            && (forall|j: int|
                            k < j < run.tools.len() ==> (#[trigger] run.tools[j]).name
                                != call.name) ==> class == run.tools[k].class
                    &&& (forall|k: int|
                        0 <= k < run.tools.len() ==> (#[trigger] run.tools[k]).name != call.name)
                        ==> class == ToolClass::Mutating
                },
                _ => false,
            }
            &&& at == run.answer.calls.len() - 1 ==> next.after(
                RunReplyView::Sent { delivered: true },
            ) == (
                RunView { phase: RunPhase::RunningTools, ..next },
                RunActionView::RunTools(run.answer.calls),
            )
        }),
{
    named_position_holds(run.tools, run.answer.calls[at].name);
}

/// What a run that ends early had done by then: every message and every token
/// so far, and the given text and reason.
pub open spec fn did_so_far(
    partial: AgentResultView,
    run: RunView,
    text: Seq<char>,
    stop_reason: StopReason,
) -> bool {
    &&& partial.new_messages == run.new_messages
    &&& partial.usage == run.usage
    &&& partial.text == text
    &&& partial.stop_reason == stop_reason
}

/// A failure of the provider ends the run with that failure and with what was
/// done by then: in a stream the text that came, and why the last complete
/// answer ended.
pub proof fn failures_end_the_run(run: RunView, reply: RunReplyView)
    requires
        run.expects(reply),
    ensures
        match reply {
            RunReplyView::AnswerFailed(error)
            | RunReplyView::OpenFailed(error)
            | RunReplyView::PulledFailure(error) => match run.after(reply).1 {
                RunActionView::Finish(Err(AgentErrorView::Provider { source, partial })) => {
                    &&& source == error
                    &&& did_so_far(
                        partial,
                        run,
                        if reply is PulledFailure {
                            run.answer.text
                        } else {
                            Seq::empty()
                        },
                        match run.last_stop {
                            Some(stop) => stop,
                            None => StopReason::EndTurn,
                        },
                    )
                },
                _ => false,
            },
            _ => match run.after(reply).1 {
                RunActionView::Finish(Err(AgentErrorView::Provider { .. })) => false,
                _ => true,
            },
        },
{
}

/// A run is cancelled where it is found to be, where a wait was, and where its
/// consumer is gone while a turn goes on; it then reports what it had done,
/// with the text that came where it was inside an answer.
pub proof fn cancelled_runs_report(run: RunView, reply: RunReplyView)
    requires
        run.expects(reply),
    ensures
        ({
            let gone = match reply {
                RunReplyView::CancelChecked { cancelled } => cancelled,
                RunReplyView::PullCancelled => true,
                RunReplyView::Sent { delivered } => !delivered && run.phase
                    != RunPhase::Aborting,
                _ => false,
            };
            let inside = run.phase == RunPhase::Pulling || run.phase == RunPhase::Forwarding
                || run.phase == RunPhase::Pending;
            match run.after(reply).1 {
                RunActionView::Finish(Err(AgentErrorView::Cancelled { partial })) => gone
                    && did_so_far(
                    partial,
                    run,
                    if inside {
                        run.answer.text
                    } else {
                        Seq::empty()
                    },
                    StopReason::Cancelled,
                ),
                _ => !gone,
            }
        }),
{
}

/// A run whose first answer asks for nothing more comes to that answer: its
/// message is what is new, and text, tokens and reason are the answer's.
pub proof fn one_answer_is_the_result(
    settings: RunSettingsView,
    tools: Seq<ToolSpecView>,
    messages: Seq<MessageView>,
    turn_id: Seq<char>,
    policies: Seq<AppliedPolicyView>,
    response: ResponseView,
    queued: Seq<ContentView>,
)
    requires
        settings.max_turns > 0,
        !settings.streaming,
        calls_of(response.content).len() == 0 || response.stop_reason == StopReason::EndTurn,
    ensures
        ({
            let started = RunView::begun(settings, tools, messages).0.after(
                RunReplyView::TurnBegun(turn_id),
            ).0.after(RunReplyView::CancelChecked { cancelled: false }).0;
            let (asked, request) = started.after(RunReplyView::Policies(policies));
            let answered = asked.after(RunReplyView::Answered(response)).0;
            let end = answered.after(RunReplyView::Guarded { eval: GuardEvalView::Stop, queued });
            &&& request is Complete && request->Complete_0.messages == messages
            &&& end.1 == RunActionView::Finish(
                Ok(
                    AgentResultView {
                        new_messages: seq![
                            MessageView { role: Role::Assistant, content: response.content },
                        ],
                        text: text_of_blocks(response.content),
                        usage: response.usage,
                        stop_reason: response.stop_reason,
                    },
                ),
            )
        }),
{
    let message = MessageView { role: Role::Assistant, content: response.content };
    assert(Seq::<MessageView>::empty().push(message) =~= seq![message]);
}

/// Whether a run takes every reply that an action can bring.
pub open spec fn takes_what_comes(run: RunView, action: RunActionView) -> bool {
    match action {
        RunActionView::BeginTurn => forall|id: Seq<char>|
            #[trigger] run.expects(RunReplyView::TurnBegun(id)),
        RunActionView::Emit(_) => forall|delivered: bool|
            #[trigger] run.expects(RunReplyView::Sent { delivered }),
        RunActionView::CheckCancelled => forall|cancelled: bool|
            #[trigger] run.expects(RunReplyView::CancelChecked { cancelled }),
        RunActionView::GatherPolicies => forall|policies: Seq<AppliedPolicyView>|
            #[trigger] run.expects(RunReplyView::Policies(policies)),
        RunActionView::Complete(_) => {
            &&& forall|response: ResponseView|
                #[trigger] run.expects(RunReplyView::Answered(response))
            &&& forall|error: ProviderErrorView|
                #[trigger] run.expects(RunReplyView::AnswerFailed(error))
        },
        RunActionView::Open(_) => {
            &&& run.expects(RunReplyView::Opened)
            &&& forall|error: ProviderErrorView|
                #[trigger] run.expects(RunReplyView::OpenFailed(error))
        },
        RunActionView::Pull => {
            &&& run.expects(RunReplyView::PullCancelled)
            &&& run.expects(RunReplyView::PulledEnd)
            &&& forall|event: StreamEventView|
                #[trigger] run.expects(RunReplyView::PulledEvent(event))
            &&& forall|error: ProviderErrorView|
                #[trigger] run.expects(RunReplyView::PulledFailure(error))
        },
        RunActionView::Trace(_) => run.expects(RunReplyView::Traced),
        RunActionView::RunTools(_) => forall|results: Seq<ContentView>, queued: Seq<ContentView>|
            #[trigger] run.expects(RunReplyView::ToolsDone { results, queued }),
        RunActionView::AskGuards(_) => forall|eval: GuardEvalView, queued: Seq<ContentView>|
            #[trigger] run.expects(RunReplyView::Guarded { eval, queued }),
        RunActionView::Finish(_) => run.phase == RunPhase::Over,
    }
}

/// A run never gets stuck: whatever it asks for, it takes every reply that this
/// can bring, from its begin until it hands out its result.
pub proof fn runs_take_what_comes(
    settings: RunSettingsView,
    tools: Seq<ToolSpecView>,
    messages: Seq<MessageView>,
    run: RunView,
    reply: RunReplyView,
)
    requires
        run.expects(reply),
    ensures
        ({
            let (begun, action) = RunView::begun(settings, tools, messages);
            takes_what_comes(begun, action)
        }),
        takes_what_comes(run.after(reply).0, run.after(reply).1),
{
}

/// A waiting mode change takes its next step exactly before tools run and before
/// the guards are asked; the consumer hears what waits then, and before the
/// provider is asked.
pub proof fn boundaries_are_before_tools_and_guards(action: RunActionView)
    ensures
        at_boundary(action) <==> match action {
            RunActionView::RunTools(_) | RunActionView::AskGuards(_) => true,
            _ => false,
        },
        at_report(action) <==> match action {
            RunActionView::RunTools(_)
            | RunActionView::AskGuards(_)
            | RunActionView::Complete(_)
            | RunActionView::Open(_) => true,
            _ => false,
        },
{
}

} // verus!
