//! Tool dispatch: who may run, in which order, and what the model is told.
//!
//! A tool that may not run, does not exist or fails is reported to the model
//! as a result that is marked as an error; the agent goes on.
use crate::concurrency::{configured, forked, ConcurrencyConfig, Pool};
use crate::message::{Content, ContentView};
use crate::mode::{mode_denial, mode_denial_text, ModeAnswer};
use crate::policy::ToolPolicy;
use crate::registry::{named, ToolRegistry};
use crate::text::views;
use crate::tool::{ToolCall, ToolCallView, ToolClass, ToolOutput, ToolSpecView};
use std::sync::Arc;
use vstd::prelude::*;
use vstd::string::*;

verus! {

/// How a call is scheduled.
#[derive(Clone, Copy, Debug, PartialEq, Eq, Structural)]
pub enum RoutingClass {
    /// It only reads; it goes through the read pool.
    ReadOnly,
    /// It may overlap with other mutators; it goes through the concurrent
    /// pool.
    ConcurrentMut,
    /// It runs by itself; it goes through the serial pool.
    SerialMut,
    /// It does not run at all.
    ShortCircuit,
}

/// How a call of a tool is scheduled. A call that the policy denies, or of a
/// tool that does not exist, does not run. A tool that spawns agents always
/// goes through the concurrent pool.
pub open spec fn routing(
    allowed: bool,
    tool: Option<ToolSpecView>,
    promoted: bool,
) -> RoutingClass {
    match tool {
        None => RoutingClass::ShortCircuit,
        Some(t) => if !allowed {
            RoutingClass::ShortCircuit
        } else if t.recursive {
            RoutingClass::ConcurrentMut
        } else if t.class == ToolClass::ReadOnly {
            RoutingClass::ReadOnly
        } else if promoted {
            RoutingClass::ConcurrentMut
        } else {
            RoutingClass::SerialMut
        },
    }
}

/// The pool that calls of a class wait for; none where the call does not run.
pub open spec fn pool_for(limits: ConcurrencyConfig, class: RoutingClass) -> Option<Pool> {
    match class {
        RoutingClass::ReadOnly => Some(limits.read_pool()),
        RoutingClass::ConcurrentMut => Some(limits.concurrent_pool()),
        RoutingClass::SerialMut => Some(limits.serial_pool()),
        RoutingClass::ShortCircuit => None,
    }
}

/// What the model is told of a call that does not run.
pub open spec fn refusal_text(allowed: bool, name: Seq<char>) -> Seq<char> {
    if allowed {
        "Error: tool '"@ + name + "' not found"@
    } else {
        "Error: tool '"@ + name + "' is not allowed by policy"@
    }
}

fn refusal(allowed: bool, name: &str) -> (r: String)
    ensures
        r@ == refusal_text(allowed, name@),
{
    let mut text: String = "Error: tool '".to_owned();
    text.append(name);
    if allowed {
        text.append("' not found");
    } else {
        text.append("' is not allowed by policy");
    }
    text
}

/// The result of a call that was cancelled before it ran.
pub open spec fn cancelled_result(id: Seq<char>) -> ContentView {
    ContentView::result(id, "Error: cancelled before execution"@, true)
}

/// Makes the result of a call that was cancelled before it ran.
pub fn cancelled_before_execution(call_id: &str) -> (r: Content)
    ensures
        r@ == cancelled_result(call_id@),
{
    Content::tool_result(call_id, "Error: cancelled before execution", true)
}

/// What came of asking for approval.
#[derive(Debug, PartialEq, Eq)]
pub enum ApprovalAnswer {
    Allow,
    Deny(String),
    /// The call was cancelled while the question was open.
    Cancelled,
}

/// What the driver of a call does next.
#[derive(Debug)]
pub enum CallStep {
    /// Wait for a permit of the tool's own pool.
    AwaitOwnPool,
    /// Wait for a permit of the class's pool.
    AwaitClassPool,
    /// Ask the mode in force.
    ConsultMode,
    /// Ask the policy once more.
    AskPolicy,
    /// Ask for approval.
    AskApproval,
    /// Run the tool.
    RunTool,
    /// Hand out the result.
    Finish(Content),
}

/// What a [`CallStep`] stands for.
#[verifier::ext_equal]
pub enum CallStepView {
    AwaitOwnPool,
    AwaitClassPool,
    ConsultMode,
    AskPolicy,
    AskApproval,
    RunTool,
    Finish(ContentView),
}

impl View for CallStep {
    type V = CallStepView;

    open spec fn view(&self) -> CallStepView {
        match *self {
            CallStep::AwaitOwnPool => CallStepView::AwaitOwnPool,
            CallStep::AwaitClassPool => CallStepView::AwaitClassPool,
            CallStep::ConsultMode => CallStepView::ConsultMode,
            CallStep::AskPolicy => CallStepView::AskPolicy,
            CallStep::AskApproval => CallStepView::AskApproval,
            CallStep::RunTool => CallStepView::RunTool,
            CallStep::Finish(content) => CallStepView::Finish(content@),
        }
    }
}

/// What the driver of a call reports back.
#[derive(Debug)]
pub enum CallReply {
    /// A permit was granted, or the wait was cancelled.
    Admission { granted: bool },
    Mode(ModeAnswer),
    /// What the policy says of the tool.
    Policy { allowed: bool },
    Approval(ApprovalAnswer),
    /// The tool ran: its output, or the text of its error.
    Ran(Result<ToolOutput, String>),
}

/// Where a call stands.
#[derive(Clone, Copy, Debug, PartialEq, Eq, Structural)]
pub enum CallPhase {
    OwnPool,
    ClassPool,
    Mode,
    Policy,
    Approval,
    Running,
    Over,
}

/// One call on its way through admission, mode, policy, approval and
/// execution.
#[derive(Debug)]
pub struct ToolRun {
    id: String,
    name: String,
    class: ToolClass,
    phase: CallPhase,
}

/// What a [`ToolRun`] stands for.
#[verifier::ext_equal]
pub struct ToolRunView {
    pub id: Seq<char>,
    pub name: Seq<char>,
    pub class: ToolClass,
    pub phase: CallPhase,
}

impl View for ToolRun {
    type V = ToolRunView;

    closed spec fn view(&self) -> ToolRunView {
        ToolRunView { id: self.id@, name: self.name@, class: self.class, phase: self.phase }
    }
}

/// What the model is told when a tool ran.
pub open spec fn ran_result(id: Seq<char>, outcome: Result<ToolOutput, String>) -> ContentView {
    match outcome {
        Ok(output) => ContentView::result(id, output.content@, output.is_error),
        Err(error) => ContentView::result(id, "Error: "@ + error@, true),
    }
}

impl ToolRunView {
    /// Whether a reply fits where the call stands.
    pub open spec fn expects(self, reply: CallReply) -> bool {
        match reply {
            CallReply::Admission { .. } => self.phase == CallPhase::OwnPool || self.phase
                == CallPhase::ClassPool,
            CallReply::Mode(_) => self.phase == CallPhase::Mode,
            CallReply::Policy { .. } => self.phase == CallPhase::Policy,
            CallReply::Approval(_) => self.phase == CallPhase::Approval,
            CallReply::Ran(_) => self.phase == CallPhase::Running,
        }
    }

    /// The call at another stage.
    pub open spec fn moved(self, phase: CallPhase) -> ToolRunView {
        ToolRunView { phase, ..self }
    }

    /// The call ended with a result.
    pub open spec fn finished(self, result: ContentView) -> (ToolRunView, CallStepView) {
        (self.moved(CallPhase::Over), CallStepView::Finish(result))
    }

    /// What a reply does: the tool's own pool, the class's pool, the mode, the
    /// policy and the approval in this order, each of which can end the call
    /// before the tool runs.
    pub open spec fn after(self, reply: CallReply) -> (ToolRunView, CallStepView) {
        match reply {
            CallReply::Admission { granted } => if !granted {
                self.finished(cancelled_result(self.id))
            } else if self.phase == CallPhase::OwnPool {
                (self.moved(CallPhase::ClassPool), CallStepView::AwaitClassPool)
            } else {
                (self.moved(CallPhase::Mode), CallStepView::ConsultMode)
            },
            CallReply::Mode(answer) => match mode_denial_text(self.name, self.class, answer) {
                Some(text) => self.finished(ContentView::result(self.id, text, true)),
                None => (self.moved(CallPhase::Policy), CallStepView::AskPolicy),
            },
            CallReply::Policy { allowed } => if allowed {
                (self.moved(CallPhase::Approval), CallStepView::AskApproval)
            } else {
                self.finished(
                    ContentView::result(self.id, refusal_text(false, self.name), true),
                )
            },
            CallReply::Approval(ApprovalAnswer::Allow) => (
                self.moved(CallPhase::Running),
                CallStepView::RunTool,
            ),
            CallReply::Approval(ApprovalAnswer::Deny(reason)) => self.finished(
                ContentView::result(self.id, "Error: approval denied — "@ + reason@, true),
            ),
            CallReply::Approval(ApprovalAnswer::Cancelled) => self.finished(
                ContentView::result(self.id, "Error: cancelled while awaiting approval"@, true),
            ),
            CallReply::Ran(outcome) => self.finished(ran_result(self.id, outcome)),
        }
    }
}

impl ToolRun {
    /// Whether a reply fits where the call stands.
    pub fn expects(&self, reply: &CallReply) -> (r: bool)
        ensures
            r == self@.expects(*reply),
    {
        match reply {
            CallReply::Admission { .. } => self.phase == CallPhase::OwnPool || self.phase
                == CallPhase::ClassPool,
            CallReply::Mode(_) => self.phase == CallPhase::Mode,
            CallReply::Policy { .. } => self.phase == CallPhase::Policy,
            CallReply::Approval(_) => self.phase == CallPhase::Approval,
            CallReply::Ran(_) => self.phase == CallPhase::Running,
        }
    }

    /// Takes a reply and says what to do next.
    pub fn step(&mut self, reply: CallReply) -> (r: CallStep)
        requires
            old(self)@.expects(reply),
        ensures
            (final(self)@, r@) == old(self)@.after(reply),
            match reply {
                CallReply::Ran(Ok(output)) => r@ == CallStepView::Finish(
                    ContentView::ToolResult {
                        tool_use_id: old(self)@.id,
                        content: output.content@,
                        is_error: output.is_error,
                        cache_control: None,
                    },
                ),
                _ => true,
            },
    {
        match reply {
            CallReply::Admission { granted } => if !granted {
                self.phase = CallPhase::Over;
                CallStep::Finish(cancelled_before_execution(self.id.as_str()))
            } else if self.phase == CallPhase::OwnPool {
                self.phase = CallPhase::ClassPool;
                CallStep::AwaitClassPool
            } else {
                self.phase = CallPhase::Mode;
                CallStep::ConsultMode
            },
            CallReply::Mode(answer) => match mode_denial(self.name.as_str(), self.class, &answer) {
                Some(text) => {
                    self.phase = CallPhase::Over;
                    CallStep::Finish(Content::tool_result(self.id.as_str(), text.as_str(), true))
                },
                None => {
                    self.phase = CallPhase::Policy;
                    CallStep::AskPolicy
                },
            },
            CallReply::Policy { allowed } => if allowed {
                self.phase = CallPhase::Approval;
                CallStep::AskApproval
            } else {
                self.phase = CallPhase::Over;
                let text: String = refusal(false, self.name.as_str());
                CallStep::Finish(Content::tool_result(self.id.as_str(), text.as_str(), true))
            },
            CallReply::Approval(ApprovalAnswer::Allow) => {
                self.phase = CallPhase::Running;
                CallStep::RunTool
            },
            CallReply::Approval(ApprovalAnswer::Deny(reason)) => {
                self.phase = CallPhase::Over;
                let mut text: String = "Error: approval denied — ".to_owned();
                text.append(reason.as_str());
                CallStep::Finish(Content::tool_result(self.id.as_str(), text.as_str(), true))
            },
            CallReply::Approval(ApprovalAnswer::Cancelled) => {
                self.phase = CallPhase::Over;
                CallStep::Finish(
                    Content::tool_result(
                        self.id.as_str(),
                        "Error: cancelled while awaiting approval",
                        true,
                    ),
                )
            },
            CallReply::Ran(outcome) => {
                self.phase = CallPhase::Over;
                match outcome {
                    Ok(output) => CallStep::Finish(
                        Content::tool_result(
                            self.id.as_str(),
                            output.content.as_str(),
                            output.is_error,
                        ),
                    ),
                    Err(error) => {
                        let mut text: String = "Error: ".to_owned();
                        text.append(error.as_str());
                        CallStep::Finish(
                            Content::tool_result(self.id.as_str(), text.as_str(), true),
                        )
                    },
                }
            },
        }
    }
}

/// Whatever ends a call, the result answers that call.
pub proof fn result_answers_the_call(run: ToolRunView, reply: CallReply)
    requires
        run.expects(reply),
    ensures
        match run.after(reply).1 {
            CallStepView::Finish(result) => match result {
                ContentView::ToolResult { tool_use_id, .. } => tool_use_id == run.id,
                _ => false,
            },
            _ => true,
        },
{
}

/// A tool runs only when its permits were granted, neither the mode nor the
/// policy denied it and approval was given: every other reply on the way leads elsewhere.
pub proof fn runs_only_when_cleared(run: ToolRunView, reply: CallReply)
    requires
        run.expects(reply),
    ensures
        run.after(reply).1 == CallStepView::RunTool ==> run.phase == CallPhase::Approval && reply
            == CallReply::Approval(ApprovalAnswer::Allow),
        run.after(reply).1 == CallStepView::AskApproval ==> run.phase == CallPhase::Policy && reply
            == (CallReply::Policy { allowed: true }),
        run.after(reply).1 == CallStepView::AskPolicy ==> run.phase == CallPhase::Mode
            && match reply {
            CallReply::Mode(answer) => mode_denial_text(run.name, run.class, answer) is None,
            _ => false,
        },
        run.after(reply).1 == CallStepView::ConsultMode ==> run.phase == CallPhase::ClassPool
            && reply == (CallReply::Admission { granted: true }),
        run.after(reply).1 == CallStepView::AwaitClassPool ==> run.phase == CallPhase::OwnPool
            && reply == (CallReply::Admission { granted: true }),
{
}

/// Dispatches the calls of one agent.
pub struct ToolExecutor<P: ToolPolicy + ?Sized> {
    registry: Arc<ToolRegistry>,
    policy: Arc<P>,
    concurrency: ConcurrencyConfig,
}

impl<P: ToolPolicy + ?Sized> ToolExecutor<P> {
    /// The known tools.
    pub closed spec fn tools(&self) -> Seq<ToolSpecView> {
        self.registry@
    }

    /// Whether the policy allows a tool.
    pub closed spec fn allows(&self, name: Seq<char>) -> bool {
        self.policy.allows(name)
    }

    /// The policy.
    pub closed spec fn shared_policy(&self) -> Arc<P> {
        self.policy
    }

    /// The limits.
    pub closed spec fn limits(&self) -> ConcurrencyConfig {
        self.concurrency
    }

    /// The tool with a name.
    pub open spec fn tool(&self, name: Seq<char>) -> Option<ToolSpecView> {
        named(self.tools(), name)
    }

    /// How a call of a tool is scheduled.
    pub open spec fn route(&self, name: Seq<char>) -> RoutingClass {
        routing(self.allows(name), self.tool(name), self.limits().promotes(name))
    }

    /// An executor with the default limits.
    pub fn new(registry: Arc<ToolRegistry>, policy: Arc<P>) -> (r: ToolExecutor<P>)
        ensures
            r.tools() == registry@,
            r.shared_policy() == policy,
            forall|name: Seq<char>| #[trigger] r.allows(name) == policy.allows(name),
            configured(r.limits(), 20, 10, Seq::empty()),
    {
        ToolExecutor { registry, policy, concurrency: ConcurrencyConfig::default() }
    }

    /// An executor with the given limits.
    pub fn with_concurrency(
        registry: Arc<ToolRegistry>,
        policy: Arc<P>,
        concurrency: ConcurrencyConfig,
    ) -> (r: ToolExecutor<P>)
        ensures
            r.tools() == registry@,
            r.shared_policy() == policy,
            forall|name: Seq<char>| #[trigger] r.allows(name) == policy.allows(name),
            r.limits() == concurrency,
    {
        ToolExecutor { registry, policy, concurrency }
    }

    /// The known tools.
    pub fn registry(&self) -> (r: &Arc<ToolRegistry>)
        ensures
            r@ == self.tools(),
    {
        &self.registry
    }

    /// The policy, shared.
    pub fn policy_for_fork(&self) -> (r: Arc<P>)
        ensures
            r == self.shared_policy(),
            forall|name: Seq<char>| #[trigger] r.allows(name) == self.allows(name),
    {
        self.policy.clone()
    }

    /// The executor of a child agent: the same tools and the same policy, and
    /// the limits of the next nesting level.
    #[must_use]
    pub fn fork_for_subagent(&self) -> (r: ToolExecutor<P>)
        ensures
            r.tools() == self.tools(),
            r.shared_policy() == self.shared_policy(),
            forall|name: Seq<char>| #[trigger] r.allows(name) == self.allows(name),
            forked(self.limits(), r.limits()),
    {
        self.fork_for_subagent_with(self.policy.clone())
    }

    /// The executor of a child agent under another policy.
    #[must_use]
    pub fn fork_for_subagent_with<Q: ToolPolicy + ?Sized>(&self, policy: Arc<Q>) -> (r:
        ToolExecutor<Q>)
        ensures
            r.tools() == self.tools(),
            r.shared_policy() == policy,
            forall|name: Seq<char>| #[trigger] r.allows(name) == policy.allows(name),
            forked(self.limits(), r.limits()),
    {
        ToolExecutor {
            registry: self.registry.clone(),
            policy,
            concurrency: self.concurrency.fork(),
        }
    }

    /// How a call of a tool is scheduled.
    pub fn routing_class(&self, name: &str) -> (r: RoutingClass)
        ensures
            r == self.route(name@),
    {
        if !self.policy.is_allowed(name) {
            return RoutingClass::ShortCircuit;
        }
        match self.registry.get(name) {
            None => RoutingClass::ShortCircuit,
            Some(tool) => if tool.recursive {
                RoutingClass::ConcurrentMut
            } else {
                match tool.class {
                    ToolClass::ReadOnly => RoutingClass::ReadOnly,
                    ToolClass::Mutating => if self.concurrency.is_promoted(name) {
                        RoutingClass::ConcurrentMut
                    } else {
                        RoutingClass::SerialMut
                    },
                }
            },
        }
    }

    /// The pool that calls of a class wait for; none where the call does not
    /// run.
    pub fn class_pool(&self, class: RoutingClass) -> (r: Option<&Pool>)
        ensures
            match pool_for(self.limits(), class) {
                Some(pool) => r == Some(&pool),
                None => r is None,
            },
    {
        match class {
            RoutingClass::ReadOnly => Some(self.concurrency.read()),
            RoutingClass::ConcurrentMut => Some(self.concurrency.concurrent_mut()),
            RoutingClass::SerialMut => Some(self.concurrency.serial_mut()),
            RoutingClass::ShortCircuit => None,
        }
    }

    /// The pool of a tool's own, where it has one.
    pub fn own_pool(&self, name: &str) -> (r: Option<&Pool>)
        ensures
            match self.limits().own_pool(name@) {
                Some(pool) => r == Some(&pool),
                None => r is None,
            },
    {
        self.concurrency.tool_pool(name)
    }

    /// The class of a tool; one that is not known counts as mutating.
    pub fn class_of(&self, name: &str) -> (r: ToolClass)
        ensures
            r == self.known_class(name@),
    {
        match self.registry.get(name) {
            Some(tool) => tool.class,
            None => ToolClass::Mutating,
        }
    }

    /// The class of a tool; one that is not known counts as mutating.
    pub open spec fn known_class(&self, name: Seq<char>) -> ToolClass {
        match self.tool(name) {
            Some(tool) => tool.class,
            None => ToolClass::Mutating,
        }
    }

    /// A call at a stage.
    pub open spec fn run_of(&self, call: ToolCallView, phase: CallPhase) -> ToolRunView {
        ToolRunView { id: call.id, name: call.name, class: self.known_class(call.name), phase }
    }

    /// A call that does not run, with its answer.
    pub open spec fn refused(&self, call: ToolCallView) -> (ToolRunView, CallStepView) {
        (
            self.run_of(call, CallPhase::Over),
            CallStepView::Finish(
                ContentView::result(
                    call.id,
                    refusal_text(self.allows(call.name), call.name),
                    true,
                ),
            ),
        )
    }

    /// A call of a batch at its start: one that does not run is answered at
    /// once, every other waits for its permits, those of the tool's own pool
    /// first.
    pub open spec fn dispatched(&self, call: ToolCallView) -> (ToolRunView, CallStepView) {
        if self.route(call.name) == RoutingClass::ShortCircuit {
            self.refused(call)
        } else if self.limits().own_pool(call.name) is Some {
            (self.run_of(call, CallPhase::OwnPool), CallStepView::AwaitOwnPool)
        } else {
            (self.run_of(call, CallPhase::ClassPool), CallStepView::AwaitClassPool)
        }
    }

    /// A call outside of a batch at its start: one that does not run is
    /// answered at once, every other needs approval.
    pub open spec fn started_alone(&self, call: ToolCallView) -> (ToolRunView, CallStepView) {
        if self.route(call.name) == RoutingClass::ShortCircuit {
            self.refused(call)
        } else {
            (self.run_of(call, CallPhase::Approval), CallStepView::AskApproval)
        }
    }

    fn short_circuit_result(&self, call: &ToolCall) -> (r: Content)
        ensures
            r@ == ContentView::result(
                call@.id,
                refusal_text(self.allows(call@.name), call@.name),
                true,
            ),
    {
        let text: String = refusal(
            self.policy.is_allowed(call.name.as_str()),
            call.name.as_str(),
        );
        Content::tool_result(call.id.as_str(), text.as_str(), true)
    }

    /// Starts a call of a batch: one that does not run is answered at once,
    /// every other waits for its permits, those of the tool's own pool first.
    pub fn dispatch_one(&self, call: &ToolCall) -> (r: (ToolRun, CallStep))
        ensures
            (r.0@, r.1@) == self.dispatched(call@),
    {
        let mut run: ToolRun = ToolRun {
            id: call.id.clone(),
            name: call.name.clone(),
            class: self.class_of(call.name.as_str()),
            phase: CallPhase::Over,
        };
        if self.routing_class(call.name.as_str()) == RoutingClass::ShortCircuit {
            return (run, CallStep::Finish(self.short_circuit_result(call)));
        }
        if self.concurrency.tool_pool(call.name.as_str()).is_some() {
            run.phase = CallPhase::OwnPool;
            (run, CallStep::AwaitOwnPool)
        } else {
            run.phase = CallPhase::ClassPool;
            (run, CallStep::AwaitClassPool)
        }
    }

    /// Starts a call outside of a batch: policy, then the registry, then
    /// approval.
    pub fn execute_one(&self, call: &ToolCall) -> (r: (ToolRun, CallStep))
        ensures
            (r.0@, r.1@) == self.started_alone(call@),
    {
        let mut run: ToolRun = ToolRun {
            id: call.id.clone(),
            name: call.name.clone(),
            class: self.class_of(call.name.as_str()),
            phase: CallPhase::Over,
        };
        if self.routing_class(call.name.as_str()) == RoutingClass::ShortCircuit {
            return (run, CallStep::Finish(self.short_circuit_result(call)));
        }
        run.phase = CallPhase::Approval;
        (run, CallStep::AskApproval)
    }

    /// Starts a batch of calls. Where the batch was cancelled before, every
    /// call is answered so.
    pub fn execute_batch(&self, calls: Vec<ToolCall>, cancelled: bool) -> (r: Batch)
        ensures
            r@.calls == views(calls@),
            r@.routings.len() == calls@.len(),
            forall|i: int|
                0 <= i < calls@.len() ==> #[trigger] r@.routings[i] == self.route(
                    views(calls@)[i].name,
                ),
            r@ == BatchView::fresh(views(calls@), r@.routings, cancelled),
            r@.wf(),
    {
        let mut routings: Vec<RoutingClass> = Vec::new();
        let mut slots: Vec<Option<Content>> = Vec::new();
        let mut i: usize = 0;
        while i < calls.len()
            invariant
                i <= calls.len(),
                routings.len() == i,
                slots.len() == i,
                forall|k: int|
                    0 <= k < i ==> #[trigger] routings@[k] == self.route(views(calls@)[k].name),
                forall|k: int| 0 <= k < i ==> (#[trigger] slots@[k]) is None,
            decreases calls.len() - i,
        {
            routings.push(self.routing_class(calls[i].name.as_str()));
            slots.push(None);
            i = i + 1;
        }
        let mut state: BatchState = BatchState { calls, routings, slots, dispatched: 0 };
        assert(state@.slots =~= no_results(calls@.len()));
        if cancelled {
            state.cancel_rest();
        }
        assert(state@.slots =~= BatchView::fresh(
            views(calls@),
            state@.routings,
            cancelled,
        ).slots);
        Batch { state }
    }
}

/// As many slots without a result.
pub open spec fn no_results(n: nat) -> Seq<Option<ContentView>> {
    Seq::new(n, |i: int| None)
}

/// Where the run that starts at a position ends: a serial mutator is a run of
/// its own; every other run goes on as long as the class stays the same.
pub open spec fn run_end(routings: Seq<RoutingClass>, start: int) -> int {
    if routings[start] == RoutingClass::SerialMut {
        start + 1
    } else {
        same_class_end(routings, routings[start], start + 1)
    }
}

/// The first position from `from` on whose class differs, or the end.
pub open spec fn same_class_end(
    routings: Seq<RoutingClass>,
    class: RoutingClass,
    from: int,
) -> int
    decreases routings.len() - from,
{
    if from < routings.len() && routings[from] == class {
        same_class_end(routings, class, from + 1)
    } else {
        from
    }
}

/// A run is not empty, stays inside the batch, and holds one class; a run of
/// serial mutators is one call long, and every other run is as long as it can
/// be.
pub proof fn run_is_uniform(routings: Seq<RoutingClass>, start: int)
    requires
        0 <= start < routings.len(),
    ensures
        start < run_end(routings, start) <= routings.len(),
        forall|k: int|
            start <= k < run_end(routings, start) ==> #[trigger] routings[k] == routings[start],
        routings[start] == RoutingClass::SerialMut ==> run_end(routings, start) == start + 1,
        routings[start] != RoutingClass::SerialMut && run_end(routings, start) < routings.len()
            ==> routings[run_end(routings, start)] != routings[start],
{
    if routings[start] != RoutingClass::SerialMut {
        same_class_end_holds(routings, routings[start], start + 1);
    }
}

proof fn same_class_end_holds(routings: Seq<RoutingClass>, class: RoutingClass, from: int)
    requires
        0 <= from <= routings.len(),
    ensures
        from <= same_class_end(routings, class, from) <= routings.len(),
        forall|k: int|
            from <= k < same_class_end(routings, class, from) ==> #[trigger] routings[k] == class,
        same_class_end(routings, class, from) < routings.len() ==> routings[same_class_end(
            routings,
            class,
            from,
        )] != class,
    decreases routings.len() - from,
{
    if from < routings.len() && routings[from] == class {
        same_class_end_holds(routings, class, from + 1);
    }
}

/// Finds where the run that starts at a position ends.
pub fn same_class_run_end(routings: &Vec<RoutingClass>, start: usize) -> (r: usize)
    requires
        start < routings@.len(),
    ensures
        r == run_end(routings@, start as int),
        start < r <= routings@.len(),
{
    let len: usize = routings.len();
    assert(start < len);
    if routings[start] == RoutingClass::SerialMut {
        return start + 1;
    }
    let mut end: usize = start + 1;
    while end < routings.len() && routings[end] == routings[start]
        invariant
            start < end <= routings.len(),
            run_end(routings@, start as int) == same_class_end(
                routings@,
                routings@[start as int],
                end as int,
            ),
        decreases routings.len() - end,
    {
        end = end + 1;
    }
    end
}

/// A batch of calls under way: the calls in the model's order, how each is
/// scheduled, the results so far, and how many calls were handed out.
#[derive(Debug)]
pub struct Batch {
    state: BatchState,
}

#[derive(Debug)]
struct BatchState {
    calls: Vec<ToolCall>,
    routings: Vec<RoutingClass>,
    slots: Vec<Option<Content>>,
    dispatched: usize,
}

/// What a [`Batch`] stands for.
#[verifier::ext_equal]
pub struct BatchView {
    pub calls: Seq<ToolCallView>,
    pub routings: Seq<RoutingClass>,
    pub slots: Seq<Option<ContentView>>,
    pub dispatched: int,
}

/// The views of slots.
pub open spec fn slots_view(slots: Seq<Option<Content>>) -> Seq<Option<ContentView>> {
    Seq::new(
        slots.len(),
        |i: int|
            match slots[i] {
                Some(content) => Some(content@),
                None => None,
            },
    )
}

impl View for Batch {
    type V = BatchView;

    closed spec fn view(&self) -> BatchView {
        self.state@
    }
}

impl View for BatchState {
    type V = BatchView;

    closed spec fn view(&self) -> BatchView {
        BatchView {
            calls: views(self.calls@),
            routings: self.routings@,
            slots: slots_view(self.slots@),
            dispatched: self.dispatched as int,
        }
    }
}

/// What the driver of a batch does next.
#[derive(Clone, Copy, Debug, PartialEq, Eq, Structural)]
pub enum BatchStep {
    /// Wait: calls of the current run are still out.
    Wait,
    /// Hand out the calls from `from` up to but not including `to`.
    Run { from: usize, to: usize },
    /// Every call has its result.
    Done,
}

impl BatchView {
    /// One class and one slot per call, and no result behind what was handed
    /// out.
    pub open spec fn wf(self) -> bool {
        &&& self.routings.len() == self.calls.len()
        &&& self.slots.len() == self.calls.len()
        &&& 0 <= self.dispatched <= self.calls.len()
        &&& forall|i: int|
            self.dispatched <= i < self.slots.len() ==> (#[trigger] self.slots[i]) is None
    }

    /// A batch at its start; a cancelled one is answered at once.
    pub open spec fn fresh(
        calls: Seq<ToolCallView>,
        routings: Seq<RoutingClass>,
        cancelled: bool,
    ) -> BatchView {
        let waiting = BatchView { calls, routings, slots: no_results(calls.len()), dispatched: 0 };
        if cancelled {
            waiting.rest_cancelled()
        } else {
            waiting
        }
    }

    /// Whether every call that was handed out has its result.
    pub open spec fn settled(self) -> bool {
        forall|i: int| 0 <= i < self.dispatched ==> (#[trigger] self.slots[i]) is Some
    }

    /// Whether every call has its result.
    pub open spec fn complete(self) -> bool {
        forall|i: int| 0 <= i < self.slots.len() ==> (#[trigger] self.slots[i]) is Some
    }

    /// The batch with the calls that were not handed out answered as
    /// cancelled.
    pub open spec fn rest_cancelled(self) -> BatchView {
        BatchView {
            slots: Seq::new(
                self.slots.len(),
                |i: int|
                    if i < self.dispatched {
                        self.slots[i]
                    } else {
                        Some(cancelled_result(self.calls[i].id))
                    },
            ),
            dispatched: self.calls.len() as int,
            ..self
        }
    }

    /// What comes next, given whether the run was cancelled meanwhile: while
    /// calls are out, wait; then the next run, in the order of the calls; a
    /// cancelled batch answers what is left.
    pub open spec fn next(self, cancelled: bool) -> (BatchView, BatchStep) {
        if !self.settled() {
            (self, BatchStep::Wait)
        } else if self.dispatched == self.calls.len() {
            (self, BatchStep::Done)
        } else if cancelled {
            (self.rest_cancelled(), BatchStep::Done)
        } else {
            let end = run_end(self.routings, self.dispatched);
            (
                BatchView { dispatched: end, ..self },
                BatchStep::Run { from: self.dispatched as usize, to: end as usize },
            )
        }
    }
}

impl Batch {
    #[verifier::type_invariant]
    closed spec fn inv(&self) -> bool {
        self.state@.wf()
    }

    fn take_state(&mut self) -> (r: BatchState)
        ensures
            r@ == old(self)@,
            r@.wf(),
    {
        proof {
            use_type_invariant(&*self);
        }
        let mut state: BatchState = BatchState {
            calls: Vec::new(),
            routings: Vec::new(),
            slots: Vec::new(),
            dispatched: 0,
        };
        std::mem::swap(&mut state, &mut self.state);
        state
    }

    /// What to do next, given whether the run was cancelled meanwhile.
    pub fn next(&mut self, cancelled: bool) -> (r: BatchStep)
        ensures
            final(self)@.wf(),
            (final(self)@, r) == old(self)@.next(cancelled),
    {
        let mut state: BatchState = self.take_state();
        let step: BatchStep = state.next(cancelled);
        self.state = state;
        step
    }

    /// A call of the batch.
    pub fn call(&self, index: usize) -> (r: &ToolCall)
        requires
            index < self@.calls.len(),
        ensures
            r@ == self@.calls[index as int],
    {
        &self.state.calls[index]
    }

    /// How a call of the batch is scheduled.
    pub fn routing(&self, index: usize) -> (r: RoutingClass)
        requires
            index < self@.calls.len(),
        ensures
            r == self@.routings[index as int],
    {
        proof {
            use_type_invariant(self);
        }
        self.state.routings[index]
    }

    /// Takes the result of a call that was handed out.
    pub fn record(&mut self, index: usize, content: Content)
        requires
            index < old(self)@.dispatched,
        ensures
            final(self)@.wf(),
            final(self)@ == (BatchView {
                slots: old(self)@.slots.update(index as int, Some(content@)),
                ..old(self)@
            }),
    {
        let mut state: BatchState = self.take_state();
        state.record(index, content);
        self.state = state;
    }

    /// The results in the order of the calls, once every call has its own.
    pub fn into_results(self) -> (r: Option<Vec<Content>>)
        ensures
            match r {
                Some(results) => self@.complete() && results@.len() == self@.calls.len()
                    && forall|i: int|
                    0 <= i < results@.len() ==> Some((#[trigger] results@[i])@) == self@.slots[i],
                None => !self@.complete(),
            },
    {
        proof {
            use_type_invariant(&self);
        }
        self.state.into_results()
    }
}

impl BatchState {
    fn cancel_rest(&mut self)
        requires
            old(self)@.wf(),
        ensures
            final(self)@ == old(self)@.rest_cancelled(),
            final(self)@.wf(),
            final(self).calls == old(self).calls,
            final(self).routings == old(self).routings,
    {
        let ghost before = self@;
        let mut k: usize = self.dispatched;
        while k < self.calls.len()
            invariant
                before.dispatched <= k <= self.calls.len(),
                self.calls == old(self).calls,
                self.routings == old(self).routings,
                self.dispatched == old(self).dispatched,
                before == old(self)@,
                before.wf(),
                self.slots@.len() == self.calls@.len(),
                forall|i: int|
                    0 <= i < k ==> #[trigger] self@.slots[i] == before.rest_cancelled().slots[i],
                forall|i: int| k <= i < self.calls@.len() ==> (#[trigger] self@.slots[i]) is None,
            decreases self.calls.len() - k,
        {
            let result: Content = cancelled_before_execution(self.calls[k].id.as_str());
            let ghost prior = self@.slots;
            self.slots.set(k, Some(result));
            assert(self@.slots =~= prior.update(k as int, Some(result@)));
            k = k + 1;
        }
        let ghost filled = self@.slots;
        self.dispatched = self.calls.len();
        assert(self@.slots == filled);
        assert(filled =~= before.rest_cancelled().slots);
    }

    fn is_settled(&self) -> (r: bool)
        requires
            self@.wf(),
        ensures
            r == self@.settled(),
    {
        let mut i: usize = 0;
        while i < self.dispatched
            invariant
                i <= self.dispatched,
                self@.wf(),
                forall|k: int| 0 <= k < i ==> (#[trigger] self@.slots[k]) is Some,
            decreases self.dispatched - i,
        {
            assert(self@.slots[i as int] is Some <==> self.slots@[i as int] is Some);
            if self.slots[i].is_none() {
                return false;
            }
            i = i + 1;
        }
        true
    }

    fn next(&mut self, cancelled: bool) -> (r: BatchStep)
        requires
            old(self)@.wf(),
        ensures
            final(self)@.wf(),
            (final(self)@, r) == old(self)@.next(cancelled),
    {
        if !self.is_settled() {
            return BatchStep::Wait;
        }
        if self.dispatched == self.calls.len() {
            return BatchStep::Done;
        }
        if cancelled {
            self.cancel_rest();
            return BatchStep::Done;
        }
        let from: usize = self.dispatched;
        let to: usize = same_class_run_end(&self.routings, from);
        self.dispatched = to;
        BatchStep::Run { from, to }
    }

    fn record(&mut self, index: usize, content: Content)
        requires
            old(self)@.wf(),
            index < old(self)@.dispatched,
        ensures
            final(self)@.wf(),
            final(self)@ == (BatchView {
                slots: old(self)@.slots.update(index as int, Some(content@)),
                ..old(self)@
            }),
    {
        let ghost before = self@;
        self.slots.set(index, Some(content));
        assert(self@.slots =~= before.slots.update(index as int, Some(content@)));
    }

    fn into_results(self) -> (r: Option<Vec<Content>>)
        requires
            self@.wf(),
        ensures
            match r {
                Some(results) => self@.complete() && results@.len() == self@.calls.len()
                    && forall|i: int|
                    0 <= i < results@.len() ==> Some((#[trigger] results@[i])@) == self@.slots[i],
                None => !self@.complete(),
            },
    {
        let ghost view = self@;
        let ghost given = self.slots@;
        let slots: Vec<Option<Content>> = self.slots;
        let mut results: Vec<Content> = Vec::new();
        for slot in it: slots
            invariant
                it.seq() == given,
                view == self@,
                given.len() == view.slots.len(),
                slots_view(given) == view.slots,
                results@.len() == it.index(),
                forall|i: int|
                    0 <= i < results@.len() ==> Some((#[trigger] results@[i])@) == view.slots[i],
        {
            let ghost at = it.index() as int;
            assert(given[at] == slot);
            match slot {
                Some(content) => {
                    assert(view.slots[at] == Some(content@));
                    results.push(content);
                },
                None => {
                    assert(0 <= at < view.slots.len());
                    assert(view.slots[at] is None);
                    assert(!view.complete());
                    return None;
                },
            }
        }
        assert forall|i: int| 0 <= i < view.slots.len() implies (
        #[trigger] view.slots[i]) is Some by {
            assert(Some(results@[i]@) == view.slots[i]);
        }
        Some(results)
    }
}

/// Whether a result answers the call with an id.
pub open spec fn answers(result: ContentView, id: Seq<char>) -> bool {
    match result {
        ContentView::ToolResult { tool_use_id, .. } => tool_use_id == id,
        _ => false,
    }
}

/// Whether every result so far stands in the place of the call it answers.
pub open spec fn results_in_place(batch: BatchView) -> bool {
    forall|i: int|
        0 <= i < batch.slots.len() && (#[trigger] batch.slots[i]) is Some ==> answers(
            batch.slots[i]->0,
            batch.calls[i].id,
        )
}

/// Results stay in the place of their calls: whatever a batch does by itself
/// keeps them there, and so does recording a result that answers its call.
pub proof fn results_stay_in_place(
    batch: BatchView,
    cancelled: bool,
    index: int,
    result: ContentView,
)
    requires
        batch.wf(),
        results_in_place(batch),
        0 <= index < batch.calls.len(),
        answers(result, batch.calls[index].id),
    ensures
        results_in_place(batch.next(cancelled).0),
        batch.next(cancelled).0.calls == batch.calls,
        results_in_place(
            BatchView { slots: batch.slots.update(index, Some(result)), ..batch },
        ),
{
}

/// A batch that was cancelled before it began is answered call by call.
pub proof fn cancelled_batches_are_answered(
    calls: Seq<ToolCallView>,
    routings: Seq<RoutingClass>,
)
    ensures
        BatchView::fresh(calls, routings, true).complete(),
        results_in_place(BatchView::fresh(calls, routings, true)),
        results_in_place(BatchView::fresh(calls, routings, false)),
        forall|i: int|
            0 <= i < calls.len() ==> #[trigger] BatchView::fresh(calls, routings, true).slots[i]
                == Some(cancelled_result(calls[i].id)),
{
}

/// A run of calls is handed out only once every call before it has its
/// result, and it holds calls of one class; a batch that says it is done has
/// all its results.
pub proof fn runs_wait_for_each_other(batch: BatchView, cancelled: bool)
    requires
        batch.wf(),
        batch.calls.len() <= usize::MAX,
    ensures
        match batch.next(cancelled).1 {
            BatchStep::Wait => batch.next(cancelled).0 == batch,
            BatchStep::Run { from, to } => from < to <= batch.calls.len() && !cancelled
                && batch.next(cancelled).0.dispatched == to && batch.next(cancelled).0.slots
                == batch.slots && (forall|i: int|
                0 <= i < from ==> (#[trigger] batch.slots[i]) is Some) && (forall|i: int|
                from <= i < to ==> #[trigger] batch.routings[i] == batch.routings[from as int]),
            BatchStep::Done => batch.next(cancelled).0.complete(),
        },
{
    if batch.settled() && batch.dispatched < batch.calls.len() {
        run_is_uniform(batch.routings, batch.dispatched);
    }
}

} // verus!
