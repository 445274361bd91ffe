//! What the model is told of each call, and which calls run.
use crate::concurrency::{ConcurrencyConfig, PoolUse};
use crate::executor::{
    pool_for, refusal_text, routing, run_end, run_is_uniform, ApprovalAnswer, BatchStep, BatchView,
    CallPhase, CallReply, CallStepView, RoutingClass, ToolExecutor, ToolRunView,
};
use crate::message::ContentView;
use crate::mode::{mode_denial_text, ModeAnswer, ModeDecision};
use crate::policy::ToolPolicy;
use crate::tool::{ToolCallView, ToolClass, ToolOutput, ToolSpecView};
use vstd::prelude::*;

verus! {

/// Whether a step ends a call with a result for it: a text, marked as an error
/// or not.
pub open spec fn tells(
    step: CallStepView,
    id: Seq<char>,
    text: Seq<char>,
    error: bool,
) -> bool {
    match step {
        CallStepView::Finish(
            ContentView::ToolResult { tool_use_id, content, is_error, cache_control },
        ) => tool_use_id == id && content == text && is_error == error && cache_control is None,
        _ => false,
    }
}

/// When a tool ran, the model gets what the tool said: its output's text,
/// marked as an error exactly when the output is, or the text of its failure,
/// marked as an error.
pub proof fn outputs_reach_the_model(run: ToolRunView, outcome: Result<ToolOutput, String>)
    requires
        run.phase == CallPhase::Running,
    ensures
        run.expects(CallReply::Ran(outcome)),
        run.after(CallReply::Ran(outcome)).0.phase == CallPhase::Over,
        match outcome {
            Ok(output) => tells(
                run.after(CallReply::Ran(outcome)).1,
                run.id,
                output.content@,
                output.is_error,
            ),
            Err(error) => tells(
                run.after(CallReply::Ran(outcome)).1,
                run.id,
                "Error: "@ + error@,
                true,
            ),
        },
{
}

/// A call that is kept from running is over, and the model is told why, as an
/// error: whether it was cancelled while it waited, or denied by the mode, the
/// policy or the approval. No other reply but that of the tool ends a call.
pub proof fn refusals_reach_the_model(run: ToolRunView, reply: CallReply)
    requires
        run.expects(reply),
        !(reply is Ran),
    ensures
        ({
            let (next, step) = run.after(reply);
            let why = match reply {
                CallReply::Admission { granted } => if granted {
                    None
                } else {
                    Some("Error: cancelled before execution"@)
                },
                CallReply::Mode(ModeAnswer::NoMode) => None,
                CallReply::Mode(ModeAnswer::Gated(ModeDecision::Allow)) => None,
                CallReply::Mode(ModeAnswer::Gated(ModeDecision::Deny { reason })) => Some(
                    "Error: mode denied tool '"@ + run.name + "' — "@ + reason@,
                ),
                CallReply::Mode(ModeAnswer::Ungated { name, allows_mutating }) => if allows_mutating
                    || run.class == ToolClass::ReadOnly {
                    None
                } else {
                    Some(
                        "Error: mode denied tool '"@ + run.name + "' — "@ + ("mode '"@ + name@
                            + "' denies mutating tools"@),
                    )
                },
                CallReply::Mode(ModeAnswer::Panicked) => Some(
                    "Error: mode gate panicked for tool '"@ + run.name + "'"@,
                ),
                CallReply::Policy { allowed } => if allowed {
                    None
                } else {
                    Some("Error: tool '"@ + run.name + "' is not allowed by policy"@)
                },
                CallReply::Approval(ApprovalAnswer::Allow) => None,
                CallReply::Approval(ApprovalAnswer::Deny(reason)) => Some(
                    "Error: approval denied — "@ + reason@,
                ),
                CallReply::Approval(ApprovalAnswer::Cancelled) => Some(
                    "Error: cancelled while awaiting approval"@,
                ),
                CallReply::Ran(_) => None,
            };
            match why {
                Some(text) => next.phase == CallPhase::Over && tells(step, run.id, text, true),
                None => next.phase != CallPhase::Over && !(step is Finish),
            }
        }),
        run.after(reply).0.id == run.id,
        run.after(reply).0.name == run.name,
        run.after(reply).0.class == run.class,
{
}

/// Whether a mode lets a tool of a class run.
pub open spec fn mode_allows(class: ToolClass, answer: ModeAnswer) -> bool {
    match answer {
        ModeAnswer::NoMode => true,
        ModeAnswer::Panicked => false,
        ModeAnswer::Gated(decision) => decision is Allow,
        ModeAnswer::Ungated { allows_mutating, .. } => allows_mutating || class
            == ToolClass::ReadOnly,
    }
}

/// A call that is admitted, that neither mode nor policy denies and that is
/// approved runs its tool: it asks for each of them in turn, and for nothing
/// else.
pub proof fn cleared_calls_run(run: ToolRunView, answer: ModeAnswer)
    requires
        run.phase == CallPhase::OwnPool,
        mode_allows(run.class, answer),
    ensures
        ({
            let granted = CallReply::Admission { granted: true };
            let (own, s1) = run.after(granted);
            let (class, s2) = own.after(granted);
            let (mode, s3) = class.after(CallReply::Mode(answer));
            let (policy, s4) = mode.after(CallReply::Policy { allowed: true });
            let (approval, s5) = policy.after(CallReply::Approval(ApprovalAnswer::Allow));
            &&& run.expects(granted)
            &&& s1 is AwaitClassPool && own.phase == CallPhase::ClassPool
            &&& s2 is ConsultMode && class.phase == CallPhase::Mode
            &&& s3 is AskPolicy && mode.phase == CallPhase::Policy
            &&& s4 is AskApproval && policy.phase == CallPhase::Approval
            &&& s5 is RunTool && approval.phase == CallPhase::Running
            &&& approval == (ToolRunView { phase: CallPhase::Running, ..run })
        }),
{
}

/// The mode keeps a call from running exactly where it does not let tools of
/// that class run, and the model is told so.
pub proof fn modes_deny_what_they_do_not_allow(
    tool_name: Seq<char>,
    class: ToolClass,
    answer: ModeAnswer,
)
    ensures
        mode_denial_text(tool_name, class, answer) is None <==> mode_allows(class, answer),
{
}

/// How a call is scheduled: it does not run exactly where the policy denies it
/// or the tool is not known; a tool that spawns agents may overlap, one that
/// only reads is a read, and any other overlaps exactly where it is promoted.
pub proof fn calls_are_scheduled_by_their_tool(
    allowed: bool,
    tool: Option<ToolSpecView>,
    promoted: bool,
)
    ensures
        routing(allowed, tool, promoted) == RoutingClass::ShortCircuit <==> !allowed || tool
            is None,
        allowed && tool is Some ==> {
            let class = routing(allowed, tool, promoted);
            &&& tool->0.recursive ==> class == RoutingClass::ConcurrentMut
            &&& !tool->0.recursive && tool->0.class == ToolClass::ReadOnly ==> class
                == RoutingClass::ReadOnly
            &&& !tool->0.recursive && tool->0.class == ToolClass::Mutating ==> (if promoted {
                class == RoutingClass::ConcurrentMut
            } else {
                class == RoutingClass::SerialMut
            })
        },
{
}

/// What the model is told of a call that does not run: a tool that is denied is
/// named as denied, whether it is known or not, and any other as not found.
pub proof fn refusals_name_the_tool(name: Seq<char>)
    ensures
        refusal_text(false, name) == "Error: tool '"@ + name + "' is not allowed by policy"@,
        refusal_text(true, name) == "Error: tool '"@ + name + "' not found"@,
{
}

/// A batch hands its calls out one run behind the other: while results are
/// missing it waits; then the calls right behind those handed out come next,
/// until all were. Results that came stay as they are. A cancelled batch
/// answers what was not handed out, each call as cancelled, and is done.
pub proof fn batches_hand_out_every_call(batch: BatchView, cancelled: bool)
    requires
        batch.wf(),
        batch.calls.len() <= usize::MAX,
    ensures
        ({
            let (next, step) = batch.next(cancelled);
            let missing = exists|i: int|
                0 <= i < batch.dispatched && (#[trigger] batch.slots[i]) is None;
            &&& next.calls == batch.calls
            &&& next.routings == batch.routings
            &&& next.slots.len() == batch.calls.len()
            &&& forall|i: int|
                0 <= i < batch.dispatched ==> #[trigger] next.slots[i] == batch.slots[i]
            &&& if missing {
                step is Wait && next == batch
            } else if batch.dispatched == batch.calls.len() {
                step is Done && next == batch
            } else if cancelled {
                &&& step is Done
                &&& next.dispatched == batch.calls.len()
                &&& forall|i: int|
                    batch.dispatched <= i < batch.calls.len() ==> #[trigger] next.slots[i] == Some(
                        ContentView::ToolResult {
                            tool_use_id: batch.calls[i].id,
                            content: "Error: cancelled before execution"@,
                            is_error: true,
                            cache_control: None,
                        },
                    )
            } else {
                match step {
                    BatchStep::Run { from, to } => {
                        &&& from == batch.dispatched
                        &&& from < to <= batch.calls.len()
                        &&& next == (BatchView { dispatched: to as int, ..batch })
                        &&& forall|i: int|
                            from <= i < to ==> #[trigger] batch.routings[i]
                                == batch.routings[from as int]
                        &&& batch.routings[from as int] == RoutingClass::SerialMut ==> to == from
                            + 1
                        &&& batch.routings[from as int] != RoutingClass::SerialMut && to
                            < batch.calls.len() ==> batch.routings[to as int]
                            != batch.routings[from as int]
                    },
                    _ => false,
                }
            }
        }),
{
    if batch.settled() && batch.dispatched < batch.calls.len() {
        run_is_uniform(batch.routings, batch.dispatched);
        assert(0 < run_end(batch.routings, batch.dispatched) <= usize::MAX);
    }
}

/// A batch begins with every call waiting; one that was cancelled before has
/// every call answered so.
pub proof fn batches_begin(calls: Seq<ToolCallView>, routings: Seq<RoutingClass>)
    ensures
        ({
            let waiting = BatchView::fresh(calls, routings, false);
            let over = BatchView::fresh(calls, routings, true);
            &&& waiting.calls == calls && over.calls == calls
            &&& waiting.routings == routings && over.routings == routings
            &&& waiting.slots.len() == calls.len() && over.slots.len() == calls.len()
            &&& waiting.dispatched == 0 && over.dispatched == calls.len()
            &&& forall|i: int| 0 <= i < calls.len() ==> (#[trigger] waiting.slots[i]) is None
            &&& forall|i: int|
                0 <= i < calls.len() ==> #[trigger] over.slots[i] == Some(
                    ContentView::ToolResult {
                        tool_use_id: calls[i].id,
                        content: "Error: cancelled before execution"@,
                        is_error: true,
                        cache_control: None,
                    },
                )
        }),
{
}

/// A call starts with what keeps it from running: where the policy denies its
/// tool or no tool has its name, the model is told so at once and nothing runs.
/// Every other call of a batch waits for permits, those of its tool first, and
/// outside of a batch needs approval. Whatever comes, the call keeps its id and
/// name, and counts as mutating unless its tool only reads.
pub proof fn calls_start_with_what_could_refuse_them<P: ToolPolicy + ?Sized>(
    executor: ToolExecutor<P>,
    call: ToolCallView,
)
    ensures
        ({
            let (run, step) = executor.dispatched(call);
            let (alone, first) = executor.started_alone(call);
            let found = executor.tool(call.name);
            &&& run.id == call.id && alone.id == call.id
            &&& run.name == call.name && alone.name == call.name
            &&& found is Some ==> run.class == found->0.class && alone.class == found->0.class
            &&& found is None ==> run.class == ToolClass::Mutating && alone.class
                == ToolClass::Mutating
            &&& if !executor.allows(call.name) {
                &&& run.phase == CallPhase::Over && alone.phase == CallPhase::Over
                &&& tells(
                    step,
                    call.id,
                    "Error: tool '"@ + call.name + "' is not allowed by policy"@,
                    true,
                )
                &&& first == step
            } else if found is None {
                &&& run.phase == CallPhase::Over && alone.phase == CallPhase::Over
                &&& tells(step, call.id, "Error: tool '"@ + call.name + "' not found"@, true)
                &&& first == step
            } else {
                &&& alone.phase == CallPhase::Approval && first is AskApproval
                &&& if executor.limits().own_pool(call.name) is Some {
                    run.phase == CallPhase::OwnPool && step is AwaitOwnPool
                } else {
                    run.phase == CallPhase::ClassPool && step is AwaitClassPool
                }
            }
        }),
{
}

/// Reads wait for the read pool, mutators that may overlap for the concurrent
/// pool and all others for the serial pool; a call that does not run waits for
/// none.
pub proof fn classes_wait_for_their_pools(limits: ConcurrencyConfig)
    ensures
        pool_for(limits, RoutingClass::ReadOnly) == limits.pool(PoolUse::Reads),
        pool_for(limits, RoutingClass::ConcurrentMut) == limits.pool(PoolUse::ConcurrentMutators),
        pool_for(limits, RoutingClass::SerialMut) == limits.pool(PoolUse::SerialMutators),
        pool_for(limits, RoutingClass::ShortCircuit) is None,
{
}

/// A call never gets stuck: whatever a step asks for, the call takes every reply
/// that this can bring.
pub proof fn calls_take_what_comes(run: ToolRunView, reply: CallReply, more: CallReply)
    requires
        run.expects(reply),
    ensures
        ({
            let (next, step) = run.after(reply);
            next.expects(more) <==> match step {
                CallStepView::AwaitOwnPool | CallStepView::AwaitClassPool => more is Admission,
                CallStepView::ConsultMode => more is Mode,
                CallStepView::AskPolicy => more is Policy,
                CallStepView::AskApproval => more is Approval,
                CallStepView::RunTool => more is Ran,
                CallStepView::Finish(_) => false,
            }
        }),
{
}

} // verus!
