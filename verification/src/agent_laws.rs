//! What holds of every run of the agent loop.
use crate::agent::{
    at_boundary, calls_of, event_routing, text_of_blocks, AgentErrorView, AgentResultView,
    AnswerView, Routing, RunActionView, RunPhase, RunReplyView, RunResultView, RunSettingsView,
    RunView,
};
use crate::executor::{answers, results_in_place, BatchView};
use crate::guard::GuardEvalView;
use crate::message::{with_text_block, ContentView, MessageView, Role, StopReason, Usage};
use crate::stream::StreamEventView;
use crate::tool::{ToolCallView, ToolSpecView};
use vstd::prelude::*;

verus! {

/// Whether each reply fits where the run stands when it comes.
pub open spec fn all_expected(run: RunView, replies: Seq<RunReplyView>) -> bool
    decreases replies.len(),
{
    if replies.len() == 0 {
        true
    } else {
        all_expected(run, replies.drop_last()) && after_all(run, replies.drop_last()).expects(
            replies.last(),
        )
    }
}

/// The run behind several replies.
pub open spec fn after_all(run: RunView, replies: Seq<RunReplyView>) -> RunView
    decreases replies.len(),
{
    if replies.len() == 0 {
        run
    } else {
        after_all(run, replies.drop_last()).after(replies.last()).0
    }
}

/// The answer after several events of the provider.
pub open spec fn heard_all(answer: AnswerView, events: Seq<StreamEventView>) -> AnswerView
    decreases events.len(),
{
    if events.len() == 0 {
        answer
    } else {
        heard_all(answer, events.drop_last()).after(events.last())
    }
}

/// The messages that a result reports as new.
pub open spec fn reported(result: RunResultView) -> AgentResultView {
    match result {
        Ok(r) => r,
        Err(e) => e.partial(),
    }
}

/// The calls and the text of an answer are those of its blocks; what is not a
/// block yet is text.
pub open spec fn answer_consistent(answer: AnswerView) -> bool {
    &&& answer.calls == calls_of(answer.content)
    &&& answer.text == text_of_blocks(answer.content) + answer.buffer
}

/// Whether the answer of the turn is the last message of the conversation.
pub open spec fn answer_is_last(run: RunView) -> bool {
    &&& run.history.len() > 0
    &&& run.history.last() == (MessageView {
        role: Role::Assistant,
        content: run.answer.content,
    })
    &&& run.answer.buffer.len() == 0
}

/// A run that is not over has a turn left, and calls to tell while it tells
/// them.
pub open spec fn run_in_bounds(run: RunView) -> bool {
    &&& run.phase != RunPhase::Over ==> run.turn < run.settings.max_turns
    &&& run.phase == RunPhase::CheckingTools ==> run.answer.calls.len() > 0
    &&& run.phase == RunPhase::Pending ==> run.told < run.answer.calls.len()
}

/// What holds of a run wherever it stands: its answer is consistent, and from
/// the end of the answer until the tools ran it is the last message.
pub open spec fn run_consistent(run: RunView) -> bool {
    &&& run_in_bounds(run)
    &&& answer_consistent(run.answer)
    &&& match run.phase {
        RunPhase::CheckingTools | RunPhase::Pending | RunPhase::RunningTools
        | RunPhase::GuardingFinish => answer_is_last(run),
        RunPhase::CheckingEnd | RunPhase::GuardingTools | RunPhase::Injecting
        | RunPhase::Aborting => run.answer.buffer.len() == 0,
        _ => true,
    }
}

proof fn text_block_keeps(content: Seq<ContentView>, text: Seq<char>)
    ensures
        calls_of(with_text_block(content, text)) == calls_of(content),
        text_of_blocks(with_text_block(content, text)) == text_of_blocks(content) + text,
{
    if text.len() == 0 {
        assert(text_of_blocks(content) + text =~= text_of_blocks(content));
    } else {
        assert(content.push(ContentView::plain(text)).drop_last() =~= content);
    }
}

proof fn block_keeps(content: Seq<ContentView>, block: ContentView)
    ensures
        calls_of(content.push(block)) == match block {
            ContentView::ToolUse { id, name, input } => calls_of(content).push(
                ToolCallView { id, name, input },
            ),
            _ => calls_of(content),
        },
        text_of_blocks(content.push(block)) == match block {
            ContentView::Text { text, .. } => text_of_blocks(content) + text,
            _ => text_of_blocks(content),
        },
{
    assert(content.push(block).drop_last() =~= content);
}

/// An event of the provider keeps the answer consistent.
pub proof fn hearing_keeps_consistent(answer: AnswerView, event: StreamEventView)
    requires
        answer_consistent(answer),
    ensures
        answer_consistent(answer.after(event)),
        answer_consistent(answer.flushed()),
{
    text_block_keeps(answer.content, answer.buffer);
    let flushed = with_text_block(answer.content, answer.buffer);
    assert(answer.flushed().text =~= text_of_blocks(flushed) + answer.flushed().buffer);
    match event {
        StreamEventView::ContentDelta(delta) => {
            assert(answer.after(event).text =~= text_of_blocks(answer.content) + (answer.buffer
                + delta));
        },
        StreamEventView::ThinkingBlock { text, provider, metadata } => {
            block_keeps(flushed, ContentView::Thinking { text, provider, metadata });
            assert(answer.after(event).text =~= text_of_blocks(answer.after(event).content)
                + Seq::<char>::empty());
        },
        StreamEventView::ToolUse { id, name, input } => {
            block_keeps(flushed, ContentView::ToolUse { id, name, input });
            assert(answer.after(event).text =~= text_of_blocks(answer.after(event).content)
                + Seq::<char>::empty());
        },
        _ => {},
    }
}

/// Every step keeps a run consistent.
pub proof fn step_keeps_consistent(run: RunView, reply: RunReplyView)
    requires
        run_consistent(run),
        run.expects(reply),
    ensures
        run_consistent(run.after(reply).0),
{
    match reply {
        RunReplyView::Answered(response) => {
            let answer = AnswerView::whole(response);
            assert(answer.text =~= text_of_blocks(answer.content) + answer.buffer);
            concluding_keeps_consistent(RunView { answer, ..run });
        },
        RunReplyView::PulledEvent(event) => {
            hearing_keeps_consistent(run.answer, event);
        },
        RunReplyView::PulledEnd => {
            concluding_keeps_consistent(run);
        },
        RunReplyView::Traced => {
            if run.phase == RunPhase::TracingLast {
                concluding_keeps_consistent(run);
            }
        },
        RunReplyView::Policies(_) => {
            assert(AnswerView::fresh().text =~= text_of_blocks(AnswerView::fresh().content)
                + AnswerView::fresh().buffer);
        },
        _ => {},
    }
}

proof fn concluding_keeps_consistent(run: RunView)
    requires
        run.turn < run.settings.max_turns,
        answer_consistent(run.answer),
    ensures
        run_consistent(run.concluded().0),
{
    hearing_keeps_consistent(run.answer, StreamEventView::Done);
    let answer = run.answer.flushed();
    let message = MessageView { role: Role::Assistant, content: answer.content };
    assert(run.history.push(message).last() == message);
}

/// A run is consistent wherever it stands.
pub proof fn runs_are_consistent(
    settings: RunSettingsView,
    tools: Seq<ToolSpecView>,
    messages: Seq<MessageView>,
    replies: Seq<RunReplyView>,
)
    requires
        all_expected(RunView::begun(settings, tools, messages).0, replies),
    ensures
        run_consistent(after_all(RunView::begun(settings, tools, messages).0, replies)),
    decreases replies.len(),
{
    let start = RunView::begun(settings, tools, messages).0;
    if replies.len() == 0 {
        assert(start.answer.text =~= text_of_blocks(start.answer.content) + start.answer.buffer);
    } else {
        runs_are_consistent(settings, tools, messages, replies.drop_last());
        step_keeps_consistent(after_all(start, replies.drop_last()), replies.last());
    }
}

/// A step adds the same messages to the conversation and to what the run
/// reports as new, and takes none away.
pub proof fn step_grows_both(run: RunView, reply: RunReplyView, base: Seq<MessageView>)
    requires
        run.expects(reply),
        run.history == base + run.new_messages,
    ensures
        run.after(reply).0.history == base + run.after(reply).0.new_messages,
        run.new_messages.is_prefix_of(run.after(reply).0.new_messages),
        run.after(reply).0.settings == run.settings,
        run.after(reply).0.tools == run.tools,
{
    assert(run.after(reply).0.history =~= base + run.after(reply).0.new_messages);
}

/// The caller's history followed by what a run reports as new is the whole
/// conversation, wherever the run stands.
pub proof fn history_is_input_and_new(
    settings: RunSettingsView,
    tools: Seq<ToolSpecView>,
    messages: Seq<MessageView>,
    replies: Seq<RunReplyView>,
)
    requires
        all_expected(RunView::begun(settings, tools, messages).0, replies),
    ensures
        ({
            let run = after_all(RunView::begun(settings, tools, messages).0, replies);
            &&& run.history == messages + run.new_messages
            &&& run.settings == settings
            &&& run.tools == tools
        }),
    decreases replies.len(),
{
    let start = RunView::begun(settings, tools, messages).0;
    if replies.len() == 0 {
        assert(start.history =~= messages + start.new_messages);
    } else {
        history_is_input_and_new(settings, tools, messages, replies.drop_last());
        step_grows_both(after_all(start, replies.drop_last()), replies.last(), messages);
    }
}

/// Whatever ends a run, the result holds every message that the run added and
/// every token that it counted.
pub proof fn results_hold_everything(run: RunView, reply: RunReplyView)
    requires
        run.expects(reply),
    ensures
        match run.after(reply).1 {
            RunActionView::Finish(result) => reported(result).new_messages == run.after(
                reply,
            ).0.new_messages && reported(result).usage == run.after(reply).0.usage && run.after(
                reply,
            ).0.phase == RunPhase::Over,
            _ => run.after(reply).0.phase != RunPhase::Over,
        },
{
}

/// A run that ends as it should reports the text of its last answer and why
/// that answer ended.
pub proof fn success_reports_the_last_answer(run: RunView, reply: RunReplyView)
    requires
        run_consistent(run),
        run.expects(reply),
    ensures
        match run.after(reply).1 {
            RunActionView::Finish(Ok(result)) => result.text == text_of_blocks(run.answer.content)
                && result.stop_reason == run.stop_so_far(),
            _ => true,
        },
{
    match run.after(reply).1 {
        RunActionView::Finish(Ok(result)) => {
            assert(run.answer.text =~= text_of_blocks(run.answer.content));
        },
        _ => {},
    }
}

/// The consumer of a streaming run never sees the provider's stop reason,
/// token counts or end mark.
pub proof fn provider_marks_stay_inside(run: RunView, reply: RunReplyView)
    requires
        run.expects(reply),
    ensures
        match run.after(reply).1 {
            RunActionView::Emit(event) => !(event is MessageDelta) && !(event is Usage)
                && !(event is Done),
            _ => true,
        },
{
}

/// What the consumer of a streaming run sees of an answer is exactly what the
/// provider sent, event by event.
pub proof fn forwarded_as_sent(run: RunView, event: StreamEventView)
    requires
        run.phase == RunPhase::Pulling,
    ensures
        run.after(RunReplyView::PulledEvent(event)).1 == match event_routing(event) {
            Routing::Forward => RunActionView::Emit(event),
            Routing::TraceOnly | Routing::TraceLast => RunActionView::Trace(event),
            Routing::Ignore => RunActionView::Pull,
        },
{
}

/// The provider is asked with the whole conversation, and only while a turn
/// is left.
pub proof fn requests_hold_the_conversation(run: RunView, reply: RunReplyView)
    requires
        run_in_bounds(run),
        run.expects(reply),
    ensures
        match run.after(reply).1 {
            RunActionView::Complete(request) => request.messages == run.history
                && !run.settings.streaming && run.turn < run.settings.max_turns,
            RunActionView::Open(request) => request.messages == run.history
                && run.settings.streaming && run.turn < run.settings.max_turns,
            _ => true,
        },
{
}

/// Tools run exactly as the last message of the conversation asks: its calls,
/// in its order.
pub proof fn tools_run_as_asked(run: RunView, reply: RunReplyView)
    requires
        run_consistent(run),
        run.expects(reply),
    ensures
        match run.after(reply).1 {
            RunActionView::RunTools(calls) => run.history.len() > 0 && run.history.last().role
                == Role::Assistant && calls == calls_of(run.history.last().content) && calls.len()
                > 0,
            _ => true,
        },
{
}

/// A run that was found cancelled starts nothing more: no request, no tool.
pub proof fn cancelled_runs_end(run: RunView)
    requires
        run.phase == RunPhase::CheckingStart || run.phase == RunPhase::CheckingTools || run.phase
            == RunPhase::CheckingEnd || run.phase == RunPhase::Pulling,
    ensures
        run.phase != RunPhase::Pulling ==> run.after(
            RunReplyView::CancelChecked { cancelled: true },
        ).1 == RunActionView::Finish(
            Err(
                AgentErrorView::Cancelled {
                    partial: run.result(StopReason::Cancelled, Seq::empty()),
                },
            ),
        ),
        run.phase == RunPhase::Pulling ==> run.after(RunReplyView::PullCancelled).1
            == RunActionView::Finish(
            Err(
                AgentErrorView::Cancelled {
                    partial: run.result(StopReason::Cancelled, run.answer.text),
                },
            ),
        ),
{
}

/// A step counts tokens only when it adds the answer that they were for.
pub proof fn tokens_count_once(run: RunView, reply: RunReplyView)
    requires
        run.expects(reply),
    ensures
        run.after(reply).0.usage == run.usage || (run.after(reply).0.usage == run.usage.plus(
            run.after(reply).0.answer.usage,
        ) && run.after(reply).0.history == run.history.push(
            MessageView { role: Role::Assistant, content: run.after(reply).0.answer.content },
        )),
{
}

/// A conversation with what a user queued, where anything was.
pub open spec fn with_queued(
    history: Seq<MessageView>,
    queued: Seq<ContentView>,
) -> Seq<MessageView> {
    if queued.len() == 0 {
        history
    } else {
        history.push(MessageView { role: Role::User, content: queued })
    }
}

/// The conversation changes at boundaries only: when an answer is complete,
/// when tools ran, or when the guards let the run go on. What was queued joins
/// it behind the results of the tools or behind the guards' word, before the
/// next request, and never between a call and its result.
pub proof fn conversation_changes_at_boundaries(run: RunView, reply: RunReplyView)
    requires
        run.expects(reply),
    ensures
        match reply {
            RunReplyView::Answered(_) | RunReplyView::PulledEnd => run.after(reply).0.history
                == run.history.push(
                MessageView { role: Role::Assistant, content: run.after(reply).0.answer.content },
            ),
            RunReplyView::Traced => run.phase == RunPhase::TracingLast || run.after(
                reply,
            ).0.history == run.history,
            RunReplyView::ToolsDone { results, queued } => run.after(reply).0.history
                == with_queued(
                run.history.push(MessageView { role: Role::User, content: results }),
                queued,
            ),
            RunReplyView::Guarded { eval, queued } => run.after(reply).0.history == match eval {
                GuardEvalView::Continue { prompt, .. } => with_queued(
                    run.history.push(
                        MessageView {
                            role: Role::User,
                            content: seq![ContentView::plain(prompt)],
                        },
                    ),
                    queued,
                ),
                GuardEvalView::Stop => if run.phase == RunPhase::GuardingTools {
                    with_queued(run.history, queued)
                } else {
                    run.history
                },
                GuardEvalView::Abort { .. } => run.history,
            },
            _ => run.after(reply).0.history == run.history,
        },
{
}

/// The ids of calls.
pub open spec fn call_ids(calls: Seq<ToolCallView>) -> Seq<Seq<char>> {
    Seq::new(calls.len(), |i: int| calls[i].id)
}

/// The ids that the results among the blocks of a message answer, in order.
pub open spec fn answered_ids(content: Seq<ContentView>) -> Seq<Seq<char>>
    decreases content.len(),
{
    if content.len() == 0 {
        Seq::empty()
    } else {
        let before = answered_ids(content.drop_last());
        match content.last() {
            ContentView::ToolResult { tool_use_id, .. } => before.push(tool_use_id),
            _ => before,
        }
    }
}

/// Whether the message behind a position holds the results of exactly the
/// calls of the answer there, in their order; where no answer stands there,
/// nothing is asked.
pub open spec fn answered_at(messages: Seq<MessageView>, i: int) -> bool {
    messages[i].role == Role::Assistant ==> messages[i + 1].role == Role::User && answered_ids(
        messages[i + 1].content,
    ) == call_ids(calls_of(messages[i].content))
}

/// Whether messages begin with an answer, and every answer but the last
/// message is followed by a user message with the results of exactly its
/// calls, in their order.
pub open spec fn calls_answered(messages: Seq<MessageView>) -> bool {
    &&& messages.len() > 0 ==> messages[0].role == Role::Assistant
    &&& forall|i: int| 0 <= i < messages.len() - 1 ==> #[trigger] answered_at(messages, i)
}

/// Whether a reply leaves no call without its result: results answer the
/// calls that ran, in their order, and no guard sends the agent on from an
/// answer whose calls were not run.
pub open spec fn reply_answers(run: RunView, reply: RunReplyView) -> bool {
    match reply {
        RunReplyView::ToolsDone { results, .. } => answered_ids(results) == call_ids(
            run.answer.calls,
        ),
        RunReplyView::Guarded { eval: GuardEvalView::Continue { .. }, .. } => run.phase
            == RunPhase::GuardingFinish ==> run.answer.calls.len() == 0,
        _ => true,
    }
}

/// Whether every reply on the way leaves no call without its result.
pub open spec fn replies_answer(run: RunView, replies: Seq<RunReplyView>) -> bool
    decreases replies.len(),
{
    if replies.len() == 0 {
        true
    } else {
        replies_answer(run, replies.drop_last()) && reply_answers(
            after_all(run, replies.drop_last()),
            replies.last(),
        )
    }
}

/// What keeps the calls answered: a turn begins behind a user message, and
/// from the end of an answer until its tools ran the answer is the last
/// message.
spec fn talk_in_order(run: RunView) -> bool {
    &&& calls_answered(run.new_messages)
    &&& match run.phase {
        RunPhase::CheckingTools | RunPhase::Pending | RunPhase::RunningTools
        | RunPhase::GuardingFinish => run.new_messages.len() > 0 && run.new_messages.last() == (
        MessageView { role: Role::Assistant, content: run.answer.content }),
        RunPhase::CheckingEnd | RunPhase::GuardingTools | RunPhase::Injecting => {
            run.new_messages.len() > 0 && run.new_messages.last().role == Role::User
        },
        RunPhase::Aborting | RunPhase::Over => true,
        _ => run.new_messages.len() == 0 || run.new_messages.last().role == Role::User,
    }
}

proof fn user_message_keeps(messages: Seq<MessageView>, content: Seq<ContentView>)
    requires
        calls_answered(messages),
        messages.len() > 0,
        messages.last().role == Role::Assistant ==> answered_ids(content) == call_ids(
            calls_of(messages.last().content),
        ),
    ensures
        calls_answered(messages.push(MessageView { role: Role::User, content })),
{
    let more = messages.push(MessageView { role: Role::User, content });
    assert forall|i: int| 0 <= i < more.len() - 1 implies #[trigger] answered_at(more, i) by {
        if i < messages.len() - 1 {
            assert(answered_at(messages, i));
        }
    }
}

proof fn answer_keeps(messages: Seq<MessageView>, content: Seq<ContentView>)
    requires
        calls_answered(messages),
        messages.len() == 0 || messages.last().role == Role::User,
    ensures
        calls_answered(messages.push(MessageView { role: Role::Assistant, content })),
{
    let more = messages.push(MessageView { role: Role::Assistant, content });
    assert forall|i: int| 0 <= i < more.len() - 1 implies #[trigger] answered_at(more, i) by {
        if i < messages.len() - 1 {
            assert(answered_at(messages, i));
        }
    }
    if messages.len() > 0 {
        assert(more[0] == messages[0]);
    }
}

proof fn prompt_answers_nothing(prompt: Seq<char>)
    ensures
        answered_ids(seq![ContentView::plain(prompt)]) == Seq::<Seq<char>>::empty(),
{
    reveal_with_fuel(answered_ids, 2);
    assert(seq![ContentView::plain(prompt)].drop_last() =~= Seq::<ContentView>::empty());
}

proof fn step_keeps_talk_in_order(run: RunView, reply: RunReplyView)
    requires
        run_consistent(run),
        talk_in_order(run),
        run.expects(reply),
        reply_answers(run, reply),
    ensures
        talk_in_order(run.after(reply).0),
{
    match reply {
        RunReplyView::Answered(response) => {
            answer_keeps(
                run.new_messages,
                AnswerView::whole(response).flushed().content,
            );
        },
        RunReplyView::PulledEnd => {
            answer_keeps(run.new_messages, run.answer.flushed().content);
        },
        RunReplyView::Traced => {
            if run.phase == RunPhase::TracingLast {
                answer_keeps(run.new_messages, run.answer.flushed().content);
            }
        },
        RunReplyView::ToolsDone { results, queued } => {
            user_message_keeps(run.new_messages, results);
            let answered = run.new_messages.push(
                MessageView { role: Role::User, content: results },
            );
            user_message_keeps(answered, queued);
        },
        RunReplyView::Guarded { eval, queued } => match eval {
            GuardEvalView::Continue { guard_name, prompt, iteration } => {
                let content = seq![ContentView::plain(prompt)];
                prompt_answers_nothing(prompt);
                if run.phase == RunPhase::GuardingFinish {
                    assert(call_ids(run.answer.calls) =~= Seq::<Seq<char>>::empty());
                }
                user_message_keeps(run.new_messages, content);
                let prompted = run.new_messages.push(MessageView { role: Role::User, content });
                user_message_keeps(prompted, queued);
            },
            GuardEvalView::Stop => {
                if run.phase == RunPhase::GuardingTools {
                    user_message_keeps(run.new_messages, queued);
                }
            },
            GuardEvalView::Abort { .. } => {},
        },
        _ => {},
    }
}

/// The results of a complete batch answer exactly its calls, in their order.
pub proof fn batches_answer_their_calls(batch: BatchView, results: Seq<ContentView>)
    requires
        results_in_place(batch),
        batch.complete(),
        batch.slots.len() == batch.calls.len(),
        results.len() == batch.calls.len(),
        forall|i: int| 0 <= i < results.len() ==> Some(#[trigger] results[i]) == batch.slots[i],
    ensures
        answered_ids(results) == call_ids(batch.calls),
{
    assert forall|i: int| 0 <= i < results.len() implies answers(
        #[trigger] results[i],
        batch.calls[i].id,
    ) by {
        assert(batch.slots[i] == Some(results[i]));
    }
    results_answer(results, batch.calls);
}

proof fn results_answer(results: Seq<ContentView>, calls: Seq<ToolCallView>)
    requires
        results.len() == calls.len(),
        forall|i: int| 0 <= i < results.len() ==> answers(#[trigger] results[i], calls[i].id),
    ensures
        answered_ids(results) == call_ids(calls),
    decreases results.len(),
{
    if results.len() == 0 {
        assert(call_ids(calls) =~= Seq::<Seq<char>>::empty());
    } else {
        let last = results.len() - 1;
        assert(answers(results[last], calls[last].id));
        assert forall|i: int| 0 <= i < last implies answers(
            #[trigger] results.drop_last()[i],
            calls.drop_last()[i].id,
        ) by {
            assert(answers(results[i], calls[i].id));
        }
        results_answer(results.drop_last(), calls.drop_last());
        assert(call_ids(calls) =~= call_ids(calls.drop_last()).push(calls[last].id));
    }
}

/// Every call is answered: what a run reports as new begins with an answer of
/// the model, and every such answer but the last message is followed by a
/// user message with the results of exactly its calls, in their order. It
/// holds of the result, whatever ended the run, and before that wherever the
/// run stands, as long as the results answer the calls and no guard sends the
/// agent on from an answer whose calls were not run.
pub proof fn every_call_is_answered(
    settings: RunSettingsView,
    tools: Seq<ToolSpecView>,
    messages: Seq<MessageView>,
    replies: Seq<RunReplyView>,
)
    requires
        all_expected(RunView::begun(settings, tools, messages).0, replies),
        replies_answer(RunView::begun(settings, tools, messages).0, replies),
    ensures
        ({
            let start = RunView::begun(settings, tools, messages).0;
            &&& calls_answered(after_all(start, replies).new_messages)
            &&& replies.len() > 0 ==> match after_all(start, replies.drop_last()).after(
                replies.last(),
            ).1 {
                RunActionView::Finish(result) => calls_answered(reported(result).new_messages),
                _ => true,
            }
        }),
{
    talk_stays_in_order(settings, tools, messages, replies);
    if replies.len() > 0 {
        let start = RunView::begun(settings, tools, messages).0;
        results_hold_everything(after_all(start, replies.drop_last()), replies.last());
    }
}

proof fn talk_stays_in_order(
    settings: RunSettingsView,
    tools: Seq<ToolSpecView>,
    messages: Seq<MessageView>,
    replies: Seq<RunReplyView>,
)
    requires
        all_expected(RunView::begun(settings, tools, messages).0, replies),
        replies_answer(RunView::begun(settings, tools, messages).0, replies),
    ensures
        talk_in_order(after_all(RunView::begun(settings, tools, messages).0, replies)),
    decreases replies.len(),
{
    let start = RunView::begun(settings, tools, messages).0;
    if replies.len() > 0 {
        talk_stays_in_order(settings, tools, messages, replies.drop_last());
        runs_are_consistent(settings, tools, messages, replies.drop_last());
        step_keeps_talk_in_order(after_all(start, replies.drop_last()), replies.last());
    }
}

/// The turn that is active behind several replies: the last one begun, until
/// the run hands out its result.
pub open spec fn active_turn(run: RunView, replies: Seq<RunReplyView>) -> Option<Seq<char>>
    decreases replies.len(),
{
    if replies.len() == 0 {
        None
    } else if after_all(run, replies.drop_last()).after(replies.last()).1 is Finish {
        None
    } else {
        match replies.last() {
            RunReplyView::TurnBegun(turn_id) => Some(turn_id),
            _ => active_turn(run, replies.drop_last()),
        }
    }
}

/// A turn is active exactly while the agent is inside the loop: from the
/// begin of the first turn until the run is over, whatever ended it.
pub proof fn turns_are_active_inside_the_run(
    settings: RunSettingsView,
    tools: Seq<ToolSpecView>,
    messages: Seq<MessageView>,
    replies: Seq<RunReplyView>,
)
    requires
        all_expected(RunView::begun(settings, tools, messages).0, replies),
    ensures
        ({
            let start = RunView::begun(settings, tools, messages).0;
            let run = after_all(start, replies);
            active_turn(start, replies) is Some <==> run.phase != RunPhase::Over && (run.phase
                != RunPhase::Starting || run.turn > 0)
        }),
    decreases replies.len(),
{
    let start = RunView::begun(settings, tools, messages).0;
    if replies.len() > 0 {
        turns_are_active_inside_the_run(settings, tools, messages, replies.drop_last());
        results_hold_everything(after_all(start, replies.drop_last()), replies.last());
    }
}

/// Whether an action asks the provider.
pub open spec fn asks_provider(action: RunActionView) -> bool {
    action is Complete || action is Open
}

/// How often the provider is asked on the way through several replies.
pub open spec fn times_asked(run: RunView, replies: Seq<RunReplyView>) -> nat
    decreases replies.len(),
{
    if replies.len() == 0 {
        0
    } else {
        times_asked(run, replies.drop_last()) + if asks_provider(
            after_all(run, replies.drop_last()).after(replies.last()).1,
        ) {
            1nat
        } else {
            0nat
        }
    }
}

/// How often the provider may have been asked by the time a run stands where
/// it does: once per turn before, and once in this turn where its request is
/// out.
pub open spec fn asked_at_most(run: RunView) -> nat {
    match run.phase {
        RunPhase::Starting | RunPhase::Announcing | RunPhase::CheckingStart
        | RunPhase::Gathering => run.turn as nat,
        RunPhase::Over => run.settings.max_turns as nat,
        _ => (run.turn + 1) as nat,
    }
}

/// The provider is asked at most once per turn, and never more often than
/// there are turns.
pub proof fn provider_is_asked_once_per_turn(
    settings: RunSettingsView,
    tools: Seq<ToolSpecView>,
    messages: Seq<MessageView>,
    replies: Seq<RunReplyView>,
)
    requires
        all_expected(RunView::begun(settings, tools, messages).0, replies),
    ensures
        ({
            let start = RunView::begun(settings, tools, messages).0;
            let run = after_all(start, replies);
            &&& times_asked(start, replies) <= asked_at_most(run)
            &&& times_asked(start, replies) <= settings.max_turns
            &&& run.settings == settings
            &&& run_in_bounds(run)
        }),
    decreases replies.len(),
{
    let start = RunView::begun(settings, tools, messages).0;
    if replies.len() > 0 {
        provider_is_asked_once_per_turn(settings, tools, messages, replies.drop_last());
        let before = after_all(start, replies.drop_last());
        runs_are_consistent(settings, tools, messages, replies.drop_last());
        step_keeps_consistent(before, replies.last());
    }
}

/// In a streaming run the tools wait until every call was told: the calls are
/// told one by one in their order, and the tools run right after the last.
pub proof fn calls_are_told_before_tools_run(run: RunView, reply: RunReplyView)
    requires
        run_consistent(run),
        run.expects(reply),
        run.settings.streaming,
        run.answer.calls.len() <= usize::MAX,
    ensures
        match run.after(reply).1 {
            RunActionView::RunTools(calls) => run.phase == RunPhase::Pending && run.told + 1
                == calls.len() && reply == (RunReplyView::Sent { delivered: true }),
            RunActionView::Emit(StreamEventView::ToolCallPending { id, name, input, .. }) => {
                let told = run.after(reply).0.told;
                &&& told < run.answer.calls.len()
                &&& run.answer.calls[told as int] == (ToolCallView { id, name, input })
                &&& (run.phase == RunPhase::CheckingTools && told == 0) || (run.phase
                    == RunPhase::Pending && told == run.told + 1)
            },
            _ => true,
        },
{
}

/// Whether a boundary was passed on the way and neither tools nor the provider
/// had anything to do since.
pub open spec fn idle_since_boundary(run: RunView, replies: Seq<RunReplyView>) -> bool
    decreases replies.len(),
{
    if replies.len() == 0 {
        false
    } else {
        let action = after_all(run, replies.drop_last()).after(replies.last()).1;
        if asks_provider(action) || action is RunTools {
            false
        } else if at_boundary(action) {
            true
        } else {
            idle_since_boundary(run, replies.drop_last())
        }
    }
}

/// Between two boundaries there is always time: the provider was asked or
/// tools ran since the last one. So a mode change that a boundary reports can
/// be taken back before another boundary applies it.
pub proof fn boundaries_leave_time(
    settings: RunSettingsView,
    tools: Seq<ToolSpecView>,
    messages: Seq<MessageView>,
    replies: Seq<RunReplyView>,
)
    requires
        replies.len() > 0,
        all_expected(RunView::begun(settings, tools, messages).0, replies),
        at_boundary(
            after_all(RunView::begun(settings, tools, messages).0, replies.drop_last()).after(
                replies.last(),
            ).1,
        ),
    ensures
        !idle_since_boundary(RunView::begun(settings, tools, messages).0, replies.drop_last()),
{
    idle_phases(settings, tools, messages, replies.drop_last());
}

proof fn idle_phases(
    settings: RunSettingsView,
    tools: Seq<ToolSpecView>,
    messages: Seq<MessageView>,
    replies: Seq<RunReplyView>,
)
    requires
        all_expected(RunView::begun(settings, tools, messages).0, replies),
    ensures
        idle_since_boundary(RunView::begun(settings, tools, messages).0, replies) ==> match after_all(
            RunView::begun(settings, tools, messages).0,
            replies,
        ).phase {
            RunPhase::GuardingFinish
            | RunPhase::GuardingTools
            | RunPhase::Injecting
            | RunPhase::Aborting
            | RunPhase::Starting
            | RunPhase::Announcing
            | RunPhase::CheckingStart
            | RunPhase::Gathering
            | RunPhase::Over => true,
            _ => false,
        },
    decreases replies.len(),
{
    if replies.len() > 0 {
        idle_phases(settings, tools, messages, replies.drop_last());
    }
}

/// The events with which a provider would stream a block.
pub open spec fn block_event(block: ContentView) -> StreamEventView {
    match block {
        ContentView::Text { text, .. } => StreamEventView::ContentDelta(text),
        ContentView::Thinking { text, provider, metadata } => StreamEventView::ThinkingBlock {
            text,
            provider,
            metadata,
        },
        ContentView::ToolUse { id, name, input } => StreamEventView::ToolUse { id, name, input },
        ContentView::ToolResult { .. } => StreamEventView::Done,
    }
}

/// The events with which a provider would stream an answer.
pub open spec fn block_events(content: Seq<ContentView>) -> Seq<StreamEventView> {
    Seq::new(content.len(), |i: int| block_event(content[i]))
}

/// An answer that is streamed block by block comes to the same text and the
/// same calls as the answer taken whole.
pub proof fn streamed_like_whole(content: Seq<ContentView>)
    ensures
        heard_all(AnswerView::fresh(), block_events(content)).flushed().text == text_of_blocks(
            content,
        ),
        heard_all(AnswerView::fresh(), block_events(content)).flushed().calls == calls_of(content),
        answer_consistent(heard_all(AnswerView::fresh(), block_events(content)).flushed()),
    decreases content.len(),
{
    let events = block_events(content);
    let fresh = AnswerView::fresh();
    if content.len() == 0 {
        assert(fresh.text =~= text_of_blocks(fresh.content) + fresh.buffer);
        hearing_keeps_consistent(fresh, StreamEventView::Done);
        assert(fresh.flushed().text =~= text_of_blocks(content));
    } else {
        streamed_like_whole(content.drop_last());
        assert(events.drop_last() =~= block_events(content.drop_last()));
        assert(events.last() == block_event(content.last()));
        heard_consistent(events.drop_last());
        let before = heard_all(fresh, events.drop_last());
        hearing_keeps_consistent(before, events.last());
        hearing_keeps_consistent(before.after(events.last()), StreamEventView::Done);
    }
}

proof fn heard_consistent(events: Seq<StreamEventView>)
    ensures
        answer_consistent(heard_all(AnswerView::fresh(), events)),
    decreases events.len(),
{
    let fresh = AnswerView::fresh();
    if events.len() == 0 {
        assert(fresh.text =~= text_of_blocks(fresh.content) + fresh.buffer);
    } else {
        heard_consistent(events.drop_last());
        hearing_keeps_consistent(heard_all(fresh, events.drop_last()), events.last());
    }
}

} // verus!
