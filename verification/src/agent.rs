//! The agent loop as a state machine.
//!
//! [`AgentRun`] decides; its driver acts. Each step takes what came of the
//! last action and says what to do next: begin a turn, call the provider,
//! forward an event, run the tools, or hand out the result. The same machine
//! serves a buffered run and a streaming one.
use crate::error::{ProviderError, ProviderErrorView};
use crate::guard::{AgentSnapshot, AgentSnapshotView, GuardEval, GuardEvalView};
use crate::json::JsonNumber;
use crate::message::{
    clone_contents, clone_messages, flush_text, with_text_block, Content, ContentView, Message,
    MessageView, Role, StopReason, Usage,
};
use crate::prompt_policy::{AppliedPolicyView, AppliedPromptPolicy};
use crate::provider::{
    optional_blocks, Request, RequestView, Response, ResponseView, SystemBlock, SystemBlockView,
    ThinkingConfig, ToolDefinition, ToolDefinitionView,
};
use crate::registry::{named, ToolRegistry};
use crate::steering::{gather_queued, queued_blocks, SteerCommand, TurnId};
use crate::stream::{StreamEvent, StreamEventView};
use crate::text::{decimal, decimal_text, views, views_push};
use crate::tool::{clone_calls, ToolCall, ToolCallView, ToolClass, ToolSpecView};
use std::sync::Arc;
use vstd::prelude::*;
use vstd::string::*;

verus! {

/// What a run leaves behind.
#[derive(Clone, Debug)]
pub struct AgentResult {
    /// The messages that the run added, without those it was given.
    pub new_messages: Vec<Message>,
    /// The text of the last answer.
    pub text: String,
    pub usage: Usage,
    pub stop_reason: StopReason,
}

/// What an [`AgentResult`] stands for.
#[verifier::ext_equal]
pub struct AgentResultView {
    pub new_messages: Seq<MessageView>,
    pub text: Seq<char>,
    pub usage: Usage,
    pub stop_reason: StopReason,
}

impl View for AgentResult {
    type V = AgentResultView;

    open spec fn view(&self) -> AgentResultView {
        AgentResultView {
            new_messages: views(self.new_messages@),
            text: self.text@,
            usage: self.usage,
            stop_reason: self.stop_reason,
        }
    }
}

/// Why a run failed, with what it had done by then.
#[derive(Debug)]
pub enum AgentError {
    Cancelled { partial: AgentResult },
    Provider { source: ProviderError, partial: AgentResult },
    MaxTurnsReached { turns: usize, partial: AgentResult },
}

/// What an [`AgentError`] stands for.
#[verifier::ext_equal]
pub enum AgentErrorView {
    Cancelled { partial: AgentResultView },
    Provider { source: ProviderErrorView, partial: AgentResultView },
    MaxTurnsReached { turns: usize, partial: AgentResultView },
}

impl View for AgentError {
    type V = AgentErrorView;

    open spec fn view(&self) -> AgentErrorView {
        match *self {
            AgentError::Cancelled { partial } => AgentErrorView::Cancelled { partial: partial@ },
            AgentError::Provider { source, partial } => AgentErrorView::Provider {
                source: source@,
                partial: partial@,
            },
            AgentError::MaxTurnsReached { turns, partial } => AgentErrorView::MaxTurnsReached {
                turns,
                partial: partial@,
            },
        }
    }
}

impl AgentErrorView {
    /// What the run had done by then.
    pub open spec fn partial(self) -> AgentResultView {
        match self {
            AgentErrorView::Cancelled { partial } => partial,
            AgentErrorView::Provider { partial, .. } => partial,
            AgentErrorView::MaxTurnsReached { partial, .. } => partial,
        }
    }

    /// The error as text.
    pub open spec fn text(self) -> Seq<char> {
        match self {
            AgentErrorView::Cancelled { .. } => "agent run cancelled"@,
            AgentErrorView::Provider { source, .. } => "provider error: "@ + source.text(),
            AgentErrorView::MaxTurnsReached { turns, .. } => "max turns reached ("@ + decimal(
                turns as nat,
            ) + ")"@,
        }
    }
}

impl AgentError {
    /// The error as text.
    pub fn message(&self) -> (r: String)
        ensures
            r@ == self@.text(),
    {
        match self {
            AgentError::Cancelled { .. } => "agent run cancelled".to_owned(),
            AgentError::Provider { source, .. } => {
                let mut text: String = "provider error: ".to_owned();
                text.append(source.message().as_str());
                text
            },
            AgentError::MaxTurnsReached { turns, .. } => {
                let mut text: String = "max turns reached (".to_owned();
                text.append(decimal_text(*turns as u128).as_str());
                text.append(")");
                text
            },
        }
    }

    /// What the run had done by then.
    pub fn partial(&self) -> (r: &AgentResult)
        ensures
            r@ == self@.partial(),
    {
        match self {
            AgentError::Cancelled { partial } => partial,
            AgentError::Provider { partial, .. } => partial,
            AgentError::MaxTurnsReached { partial, .. } => partial,
        }
    }
}

/// What a run comes to.
pub type RunResultView = Result<AgentResultView, AgentErrorView>;

/// What a run comes to, over its view.
pub open spec fn run_result_view(result: Result<AgentResult, AgentError>) -> RunResultView {
    match result {
        Ok(r) => Ok(r@),
        Err(e) => Err(e@),
    }
}

/// The result where the task that ran the agent is gone without one.
pub fn result_or_cancelled(received: Option<Result<AgentResult, AgentError>>) -> (r: Result<
    AgentResult,
    AgentError,
>)
    ensures
        run_result_view(r) == match received {
            Some(result) => run_result_view(result),
            None => Err(
                AgentErrorView::Cancelled {
                    partial: AgentResultView {
                        new_messages: Seq::empty(),
                        text: Seq::empty(),
                        usage: Usage::zero(),
                        stop_reason: StopReason::Cancelled,
                    },
                },
            ),
        },
{
    match received {
        Some(result) => result,
        None => {
            let partial: AgentResult = AgentResult {
                new_messages: Vec::new(),
                text: String::new(),
                usage: Usage::default(),
                stop_reason: StopReason::Cancelled,
            };
            assert(partial@.new_messages =~= Seq::empty());
            assert(partial@.text =~= Seq::empty());
            Err(AgentError::Cancelled { partial })
        },
    }
}

/// What stays the same during a run.
#[derive(Debug)]
pub struct RunSettings {
    pub model: String,
    pub system: Option<Vec<SystemBlock>>,
    pub tools: Vec<ToolDefinition>,
    pub max_turns: usize,
    pub max_tokens: u32,
    pub temperature: Option<JsonNumber>,
    pub thinking: Option<ThinkingConfig>,
    /// Whether the provider's events are forwarded as they come.
    pub streaming: bool,
}

/// What [`RunSettings`] stand for.
#[verifier::ext_equal]
pub struct RunSettingsView {
    pub model: Seq<char>,
    pub system: Option<Seq<SystemBlockView>>,
    pub tools: Seq<ToolDefinitionView>,
    pub max_turns: usize,
    pub max_tokens: u32,
    pub temperature: Option<JsonNumber>,
    pub thinking: Option<ThinkingConfig>,
    pub streaming: bool,
}

impl View for RunSettings {
    type V = RunSettingsView;

    open spec fn view(&self) -> RunSettingsView {
        RunSettingsView {
            model: self.model@,
            system: optional_blocks(self.system),
            tools: views(self.tools@),
            max_turns: self.max_turns,
            max_tokens: self.max_tokens,
            temperature: self.temperature,
            thinking: self.thinking,
            streaming: self.streaming,
        }
    }
}

/// A prompt policy as a block of the system prompt, under a marker that
/// names it.
pub open spec fn policy_block(policy: AppliedPolicyView) -> SystemBlockView {
    SystemBlockView {
        text: "<!-- runtime policy: "@ + policy.name + " -->\n"@ + policy.content,
        cache_control: None,
    }
}

/// The system prompt with prompt policies behind it.
pub open spec fn with_policies(
    system: Option<Seq<SystemBlockView>>,
    policies: Seq<AppliedPolicyView>,
) -> Option<Seq<SystemBlockView>> {
    if policies.len() == 0 {
        system
    } else {
        let base = match system {
            Some(blocks) => blocks,
            None => Seq::empty(),
        };
        Some(base + Seq::new(policies.len(), |i: int| policy_block(policies[i])))
    }
}

/// The request of a turn: the whole conversation so far, under the settings
/// and the policies that apply.
pub open spec fn turn_request(
    settings: RunSettingsView,
    history: Seq<MessageView>,
    policies: Seq<AppliedPolicyView>,
) -> RequestView {
    RequestView {
        model: settings.model,
        system: with_policies(settings.system, policies),
        messages: history,
        tools: settings.tools,
        max_tokens: settings.max_tokens,
        temperature: settings.temperature,
        thinking: settings.thinking,
    }
}

fn system_with_policies(
    system: &Option<Vec<SystemBlock>>,
    policies: &Vec<AppliedPromptPolicy>,
) -> (r: Option<Vec<SystemBlock>>)
    ensures
        optional_blocks(r) == with_policies(optional_blocks(*system), views(policies@)),
{
    let mut blocks: Vec<SystemBlock> = Vec::new();
    let mut present: bool = false;
    if let Some(given) = system {
        present = true;
        let mut i: usize = 0;
        while i < given.len()
            invariant
                i <= given.len(),
                blocks.len() == i,
                forall|k: int| 0 <= k < i ==> (#[trigger] blocks@[k])@ == given@[k]@,
            decreases given.len() - i,
        {
            blocks.push(given[i].clone());
            i = i + 1;
        }
        assert(views(blocks@) =~= views(given@));
    } else {
        assert(views(blocks@) =~= Seq::<SystemBlockView>::empty());
    }
    let ghost base = views(blocks@);
    let mut k: usize = 0;
    while k < policies.len()
        invariant
            k <= policies.len(),
            views(blocks@) == base + Seq::new(
                k as nat,
                |i: int| policy_block(views(policies@)[i]),
            ),
        decreases policies.len() - k,
    {
        let mut text: String = "<!-- runtime policy: ".to_owned();
        text.append(policies[k].name.as_str());
        text.append(" -->\n");
        text.append(policies[k].content.as_str());
        let block: SystemBlock = SystemBlock { text, cache_control: None };
        proof {
            views_push(blocks@, block);
        }
        blocks.push(block);
        assert(views(blocks@) =~= base + Seq::new(
            (k + 1) as nat,
            |i: int| policy_block(views(policies@)[i]),
        ));
        k = k + 1;
    }
    assert(policies@.len() == 0 ==> views(blocks@) =~= base);
    assert(views(policies@).len() == policies@.len());
    assert(views(blocks@) =~= base + Seq::new(
        views(policies@).len(),
        |i: int| policy_block(views(policies@)[i]),
    ));
    if present || policies.len() > 0 {
        Some(blocks)
    } else {
        None
    }
}

/// The tool calls among the blocks of an answer, in order.
pub open spec fn calls_of(content: Seq<ContentView>) -> Seq<ToolCallView>
    decreases content.len(),
{
    if content.len() == 0 {
        Seq::empty()
    } else {
        let before = calls_of(content.drop_last());
        match content.last() {
            ContentView::ToolUse { id, name, input } => before.push(
                ToolCallView { id, name, input },
            ),
            _ => before,
        }
    }
}

/// The texts among the blocks of an answer, one behind the other.
pub open spec fn text_of_blocks(content: Seq<ContentView>) -> Seq<char>
    decreases content.len(),
{
    if content.len() == 0 {
        Seq::empty()
    } else {
        let before = text_of_blocks(content.drop_last());
        match content.last() {
            ContentView::Text { text, .. } => before + text,
            _ => before,
        }
    }
}

/// Joins the texts of an answer.
pub fn extract_text(content: &Vec<Content>) -> (r: String)
    ensures
        r@ == text_of_blocks(views(content@)),
{
    let ghost all = views(content@);
    let mut out: String = String::new();
    let mut i: usize = 0;
    assert(all.take(0) =~= Seq::<ContentView>::empty());
    assert(out@ =~= text_of_blocks(all.take(0)));
    while i < content.len()
        invariant
            i <= content.len(),
            all == views(content@),
            out@ == text_of_blocks(all.take(i as int)),
        decreases content.len() - i,
    {
        proof {
            assert(all.take(i + 1).drop_last() =~= all.take(i as int));
            assert(all.take(i + 1).last() == content@[i as int]@);
        }
        if let Content::Text { text, .. } = &content[i] {
            out.append(text.as_str());
        }
        i = i + 1;
    }
    assert(all.take(i as int) =~= all);
    out
}

/// Finds the tool calls of an answer.
pub fn extract_calls(content: &Vec<Content>) -> (r: Vec<ToolCall>)
    ensures
        views(r@) == calls_of(views(content@)),
{
    let ghost all = views(content@);
    let mut out: Vec<ToolCall> = Vec::new();
    let mut i: usize = 0;
    assert(all.take(0) =~= Seq::<ContentView>::empty());
    assert(views(out@) =~= calls_of(all.take(0)));
    while i < content.len()
        invariant
            i <= content.len(),
            all == views(content@),
            views(out@) == calls_of(all.take(i as int)),
        decreases content.len() - i,
    {
        proof {
            assert(all.take(i + 1).drop_last() =~= all.take(i as int));
            assert(all.take(i + 1).last() == content@[i as int]@);
        }
        if let Content::ToolUse { id, name, input } = &content[i] {
            let call: ToolCall = ToolCall {
                id: id.clone(),
                name: name.clone(),
                input: input.clone(),
            };
            proof {
                views_push(out@, call);
            }
            out.push(call);
        }
        i = i + 1;
    }
    assert(all.take(i as int) =~= all);
    out
}

/// The provider's answer of the current turn, as far as it came.
#[verifier::ext_equal]
pub struct AnswerView {
    /// All text so far.
    pub text: Seq<char>,
    /// Text that is not a block yet.
    pub buffer: Seq<char>,
    pub content: Seq<ContentView>,
    pub calls: Seq<ToolCallView>,
    pub stop: Option<StopReason>,
    pub usage: Usage,
}

impl AnswerView {
    /// Nothing came yet.
    pub open spec fn fresh() -> AnswerView {
        AnswerView {
            text: Seq::empty(),
            buffer: Seq::empty(),
            content: Seq::empty(),
            calls: Seq::empty(),
            stop: None,
            usage: Usage::zero(),
        }
    }

    /// An answer that came whole.
    pub open spec fn whole(response: ResponseView) -> AnswerView {
        AnswerView {
            text: text_of_blocks(response.content),
            buffer: Seq::empty(),
            content: response.content,
            calls: calls_of(response.content),
            stop: Some(response.stop_reason),
            usage: response.usage,
        }
    }

    /// With the text at hand made a block.
    pub open spec fn flushed(self) -> AnswerView {
        AnswerView {
            content: with_text_block(self.content, self.buffer),
            buffer: Seq::empty(),
            ..self
        }
    }

    /// With a block that came whole.
    pub open spec fn with_block(self, block: ContentView) -> AnswerView {
        AnswerView { content: self.flushed().content.push(block), ..self.flushed() }
    }

    /// After one event of the provider.
    pub open spec fn after(self, event: StreamEventView) -> AnswerView {
        match event {
            StreamEventView::ContentDelta(delta) => AnswerView {
                text: self.text + delta,
                buffer: self.buffer + delta,
                ..self
            },
            StreamEventView::ThinkingBlock { text, provider, metadata } => self.with_block(
                ContentView::Thinking { text, provider, metadata },
            ),
            StreamEventView::ToolUse { id, name, input } => AnswerView {
                calls: self.calls.push(ToolCallView { id, name, input }),
                ..self.with_block(ContentView::ToolUse { id, name, input })
            },
            StreamEventView::MessageDelta { stop_reason } => AnswerView {
                stop: Some(stop_reason),
                ..self
            },
            StreamEventView::Usage(usage) => AnswerView {
                usage: self.usage.max_with(usage),
                ..self
            },
            _ => self,
        }
    }
}

/// What becomes of a provider's event.
#[derive(Clone, Copy, Debug, PartialEq, Eq, Structural)]
pub enum Routing {
    /// It goes to the consumer.
    Forward,
    /// Only the trace sees it.
    TraceOnly,
    /// Only the trace sees it, and the answer is complete.
    TraceLast,
    /// Nobody sees it.
    Ignore,
}

/// Where a provider's event goes: text, reasoning and tool calls go to the
/// consumer; stop reason, token counts and the end mark are absorbed; what
/// no provider sends is passed over.
pub open spec fn event_routing(event: StreamEventView) -> Routing {
    match event {
        StreamEventView::ContentDelta(_)
        | StreamEventView::ThinkingDelta { .. }
        | StreamEventView::ThinkingBlock { .. }
        | StreamEventView::ToolUse { .. } => Routing::Forward,
        StreamEventView::MessageDelta { .. } | StreamEventView::Usage(_) => Routing::TraceOnly,
        StreamEventView::Done => Routing::TraceLast,
        _ => Routing::Ignore,
    }
}

/// Where a run stands.
#[derive(Clone, Copy, Debug, PartialEq, Eq, Structural)]
pub enum RunPhase {
    /// A turn is to begin.
    Starting,
    /// The begin of the turn is being told.
    Announcing,
    /// Cancellation is checked before the provider is asked.
    CheckingStart,
    /// The prompt policies that apply are being found.
    Gathering,
    /// The provider works on a whole answer.
    Answering,
    /// The provider's stream is being opened.
    Opening,
    /// The next event is awaited.
    Pulling,
    /// An event is being forwarded.
    Forwarding,
    /// An event is being traced.
    Tracing,
    /// The last event of an answer is being traced.
    TracingLast,
    /// Cancellation is checked before tools run.
    CheckingTools,
    /// The calls are being told.
    Pending,
    /// The tools run.
    RunningTools,
    /// Cancellation is checked after tools ran.
    CheckingEnd,
    /// The guards are asked after an answer without calls.
    GuardingFinish,
    /// The guards are asked after tools ran.
    GuardingTools,
    /// It is being told that a guard sent the agent on.
    Injecting,
    /// It is being told that a guard ended the run.
    Aborting,
    /// The run has its result.
    Over,
}

/// What the driver of a run does next.
#[derive(Debug)]
pub enum RunAction {
    /// Make the next turn the active one.
    BeginTurn,
    /// Hand an event to the trace and to the consumer.
    Emit(StreamEvent),
    /// Look whether the run is cancelled.
    CheckCancelled,
    /// Find the prompt policies that apply.
    GatherPolicies,
    /// Ask the provider for a whole answer.
    Complete(Request),
    /// Ask the provider for a stream.
    Open(Request),
    /// Wait for the next event, or for cancellation.
    Pull,
    /// Hand an event to the trace alone.
    Trace(StreamEvent),
    /// Run the calls.
    RunTools(Vec<ToolCall>),
    /// Ask the guards.
    AskGuards(AgentSnapshot),
    /// Hand out the result.
    Finish(Result<AgentResult, AgentError>),
}

/// What a [`RunAction`] stands for.
#[verifier::ext_equal]
pub enum RunActionView {
    BeginTurn,
    Emit(StreamEventView),
    CheckCancelled,
    GatherPolicies,
    Complete(RequestView),
    Open(RequestView),
    Pull,
    Trace(StreamEventView),
    RunTools(Seq<ToolCallView>),
    AskGuards(AgentSnapshotView),
    Finish(RunResultView),
}

impl View for RunAction {
    type V = RunActionView;

    open spec fn view(&self) -> RunActionView {
        match *self {
            RunAction::BeginTurn => RunActionView::BeginTurn,
            RunAction::Emit(event) => RunActionView::Emit(event@),
            RunAction::CheckCancelled => RunActionView::CheckCancelled,
            RunAction::GatherPolicies => RunActionView::GatherPolicies,
            RunAction::Complete(request) => RunActionView::Complete(request@),
            RunAction::Open(request) => RunActionView::Open(request@),
            RunAction::Pull => RunActionView::Pull,
            RunAction::Trace(event) => RunActionView::Trace(event@),
            RunAction::RunTools(calls) => RunActionView::RunTools(views(calls@)),
            RunAction::AskGuards(snapshot) => RunActionView::AskGuards(snapshot@),
            RunAction::Finish(result) => RunActionView::Finish(run_result_view(result)),
        }
    }
}

/// Whether an action comes at a boundary, where a waiting mode change takes
/// its next step: behind an answer or behind tools, before tools run or the
/// guards are asked.
pub open spec fn at_boundary(action: RunActionView) -> bool {
    action is RunTools || action is AskGuards
}

/// Whether the consumer is told what waits before an action: at a boundary,
/// and when the provider is about to be asked.
pub open spec fn at_report(action: RunActionView) -> bool {
    at_boundary(action) || action is Complete || action is Open
}

impl RunAction {
    /// Tells whether the action comes at a boundary.
    pub fn passes_boundary(&self) -> (r: bool)
        ensures
            r == at_boundary(self@),
    {
        matches!(self, RunAction::RunTools(_) | RunAction::AskGuards(_))
    }

    /// Tells whether the consumer is told what waits before the action.
    pub fn reports(&self) -> (r: bool)
        ensures
            r == at_report(self@),
    {
        self.passes_boundary() || matches!(self, RunAction::Complete(_) | RunAction::Open(_))
    }
}

/// What waiting for the next event came to.
#[derive(Debug)]
pub enum Pull {
    Cancelled,
    Item(Result<StreamEvent, ProviderError>),
    Closed,
}

/// What the driver of a run reports back.
#[derive(Debug)]
pub enum RunReply {
    TurnBegun(TurnId),
    /// Whether the consumer is still there.
    Sent { delivered: bool },
    CancelChecked { cancelled: bool },
    Policies(Vec<AppliedPromptPolicy>),
    Answered(Result<Response, ProviderError>),
    Opened(Result<(), ProviderError>),
    Pulled(Pull),
    Traced,
    /// The results, and what was queued meanwhile.
    ToolsDone { results: Vec<Content>, queued: Vec<SteerCommand> },
    /// What the guards say, and what was queued meanwhile.
    Guarded { eval: GuardEval, queued: Vec<SteerCommand> },
}

/// What a [`RunReply`] stands for.
#[verifier::ext_equal]
pub enum RunReplyView {
    TurnBegun(Seq<char>),
    Sent { delivered: bool },
    CancelChecked { cancelled: bool },
    Policies(Seq<AppliedPolicyView>),
    Answered(ResponseView),
    AnswerFailed(ProviderErrorView),
    Opened,
    OpenFailed(ProviderErrorView),
    PullCancelled,
    PulledEvent(StreamEventView),
    PulledFailure(ProviderErrorView),
    PulledEnd,
    Traced,
    ToolsDone { results: Seq<ContentView>, queued: Seq<ContentView> },
    Guarded { eval: GuardEvalView, queued: Seq<ContentView> },
}

impl View for RunReply {
    type V = RunReplyView;

    open spec fn view(&self) -> RunReplyView {
        match *self {
            RunReply::TurnBegun(turn_id) => RunReplyView::TurnBegun(turn_id@),
            RunReply::Sent { delivered } => RunReplyView::Sent { delivered },
            RunReply::CancelChecked { cancelled } => RunReplyView::CancelChecked { cancelled },
            RunReply::Policies(policies) => RunReplyView::Policies(views(policies@)),
            RunReply::Answered(Ok(response)) => RunReplyView::Answered(response@),
            RunReply::Answered(Err(error)) => RunReplyView::AnswerFailed(error@),
            RunReply::Opened(Ok(_)) => RunReplyView::Opened,
            RunReply::Opened(Err(error)) => RunReplyView::OpenFailed(error@),
            RunReply::Pulled(Pull::Cancelled) => RunReplyView::PullCancelled,
            RunReply::Pulled(Pull::Item(Ok(event))) => RunReplyView::PulledEvent(event@),
            RunReply::Pulled(Pull::Item(Err(error))) => RunReplyView::PulledFailure(error@),
            RunReply::Pulled(Pull::Closed) => RunReplyView::PulledEnd,
            RunReply::Traced => RunReplyView::Traced,
            RunReply::ToolsDone { results, queued } => RunReplyView::ToolsDone {
                results: views(results@),
                queued: queued_blocks(queued@),
            },
            RunReply::Guarded { eval, queued } => RunReplyView::Guarded {
                eval: eval@,
                queued: queued_blocks(queued@),
            },
        }
    }
}

/// A run: its settings, the conversation, and where it stands.
#[verifier::ext_equal]
pub struct RunView {
    pub settings: RunSettingsView,
    pub tools: Seq<ToolSpecView>,
    /// The whole conversation.
    pub history: Seq<MessageView>,
    /// What the run added to it.
    pub new_messages: Seq<MessageView>,
    pub usage: Usage,
    pub last_stop: Option<StopReason>,
    pub turn: usize,
    pub answer: AnswerView,
    /// How many calls of the answer were told.
    pub told: usize,
    pub phase: RunPhase,
}

/// How many turns a run has had in a turn: one more than the turns before.
pub open spec fn turns_so_far(turn: usize) -> usize {
    if turn < usize::MAX {
        (turn + 1) as usize
    } else {
        usize::MAX
    }
}

/// The name under which a snapshot shows a call.
pub open spec fn call_label(call: ToolCallView) -> Seq<char> {
    call.name + ":"@ + call.id
}

impl RunView {
    /// Whether a reply fits where the run stands.
    pub open spec fn expects(self, reply: RunReplyView) -> bool {
        match reply {
            RunReplyView::TurnBegun(_) => self.phase == RunPhase::Starting,
            RunReplyView::Sent { .. } => self.phase == RunPhase::Announcing || self.phase
                == RunPhase::Forwarding || self.phase == RunPhase::Pending || self.phase
                == RunPhase::Injecting || self.phase == RunPhase::Aborting,
            RunReplyView::CancelChecked { .. } => self.phase == RunPhase::CheckingStart
                || self.phase == RunPhase::CheckingTools || self.phase == RunPhase::CheckingEnd,
            RunReplyView::Policies(_) => self.phase == RunPhase::Gathering,
            RunReplyView::Answered(_) | RunReplyView::AnswerFailed(_) => self.phase
                == RunPhase::Answering,
            RunReplyView::Opened | RunReplyView::OpenFailed(_) => self.phase == RunPhase::Opening,
            RunReplyView::PullCancelled
            | RunReplyView::PulledEvent(_)
            | RunReplyView::PulledFailure(_)
            | RunReplyView::PulledEnd => self.phase == RunPhase::Pulling,
            RunReplyView::Traced => self.phase == RunPhase::Tracing || self.phase
                == RunPhase::TracingLast,
            RunReplyView::ToolsDone { .. } => self.phase == RunPhase::RunningTools,
            RunReplyView::Guarded { .. } => self.phase == RunPhase::GuardingFinish || self.phase
                == RunPhase::GuardingTools,
        }
    }

    /// The run at another stage.
    pub open spec fn moved(self, phase: RunPhase) -> RunView {
        RunView { phase, ..self }
    }

    /// What the run did so far, as a result.
    pub open spec fn result(self, stop_reason: StopReason, text: Seq<char>) -> AgentResultView {
        AgentResultView {
            new_messages: self.new_messages,
            text,
            usage: self.usage,
            stop_reason,
        }
    }

    /// Why the last answer ended; before the first one, as if a turn ended.
    pub open spec fn stop_so_far(self) -> StopReason {
        match self.last_stop {
            Some(stop) => stop,
            None => StopReason::EndTurn,
        }
    }

    /// The run has its result.
    pub open spec fn finished(self, result: RunResultView) -> (RunView, RunActionView) {
        (self.moved(RunPhase::Over), RunActionView::Finish(result))
    }

    /// The run was cancelled.
    pub open spec fn cancelled(self, text: Seq<char>) -> (RunView, RunActionView) {
        self.finished(
            Err(
                AgentErrorView::Cancelled { partial: self.result(StopReason::Cancelled, text) },
            ),
        )
    }

    /// The provider failed.
    pub open spec fn failed(self, source: ProviderErrorView, text: Seq<char>) -> (
        RunView,
        RunActionView,
    ) {
        self.finished(
            Err(
                AgentErrorView::Provider {
                    source,
                    partial: self.result(self.stop_so_far(), text),
                },
            ),
        )
    }

    /// The run ended as it should.
    pub open spec fn succeeded(self) -> (RunView, RunActionView) {
        self.finished(Ok(self.result(self.stop_so_far(), self.answer.text)))
    }

    /// The conversation with one more message.
    pub open spec fn with_message(self, message: MessageView) -> RunView {
        RunView {
            history: self.history.push(message),
            new_messages: self.new_messages.push(message),
            ..self
        }
    }

    /// The conversation with what was queued, where anything was.
    pub open spec fn with_queued(self, queued: Seq<ContentView>) -> RunView {
        if queued.len() == 0 {
            self
        } else {
            self.with_message(MessageView { role: Role::User, content: queued })
        }
    }

    /// The next turn, or the end where there is none left.
    pub open spec fn next_turn(self) -> (RunView, RunActionView) {
        if self.turn + 1 < self.settings.max_turns {
            (
                RunView { turn: (self.turn + 1) as usize, phase: RunPhase::Starting, ..self },
                RunActionView::BeginTurn,
            )
        } else {
            self.finished(
                Err(
                    AgentErrorView::MaxTurnsReached {
                        turns: self.settings.max_turns,
                        partial: self.result(self.stop_so_far(), Seq::empty()),
                    },
                ),
            )
        }
    }

    /// What guards get to see.
    pub open spec fn snapshot(self) -> AgentSnapshotView {
        AgentSnapshotView {
            turn_count: turns_so_far(self.turn),
            last_assistant_message: Some(
                MessageView { role: Role::Assistant, content: self.answer.content },
            ),
            recent_tool_calls: Seq::new(
                self.answer.calls.len(),
                |i: int| call_label(self.answer.calls[i]),
            ),
        }
    }

    /// The answer is complete: it joins the conversation. Without calls, or
    /// where the model ended its turn, the guards have the last word;
    /// otherwise the tools are next.
    pub open spec fn concluded(self) -> (RunView, RunActionView) {
        let answer = self.answer.flushed();
        let stop = match answer.stop {
            Some(s) => s,
            None => StopReason::EndTurn,
        };
        let joined = RunView {
            usage: self.usage.plus(answer.usage),
            last_stop: Some(stop),
            answer,
            ..self
        }.with_message(MessageView { role: Role::Assistant, content: answer.content });
        if answer.calls.len() == 0 || stop == StopReason::EndTurn {
            (joined.moved(RunPhase::GuardingFinish), RunActionView::AskGuards(joined.snapshot()))
        } else {
            (joined.moved(RunPhase::CheckingTools), RunActionView::CheckCancelled)
        }
    }

    /// The class under which a call is told.
    pub open spec fn told_class(self, name: Seq<char>) -> ToolClass {
        match named(self.tools, name) {
            Some(tool) => tool.class,
            None => ToolClass::Mutating,
        }
    }

    /// Tells the call at a position; behind the last one the calls run.
    pub open spec fn telling(self, at: int) -> (RunView, RunActionView) {
        if at < self.answer.calls.len() {
            let call = self.answer.calls[at];
            (
                RunView { told: at as usize, phase: RunPhase::Pending, ..self },
                RunActionView::Emit(
                    StreamEventView::ToolCallPending {
                        id: call.id,
                        name: call.name,
                        input: call.input,
                        class: self.told_class(call.name),
                    },
                ),
            )
        } else {
            self.running()
        }
    }

    /// Runs the calls.
    pub open spec fn running(self) -> (RunView, RunActionView) {
        (self.moved(RunPhase::RunningTools), RunActionView::RunTools(self.answer.calls))
    }

    /// After the consumer was sent something.
    pub open spec fn after_sent(self, delivered: bool) -> (RunView, RunActionView) {
        if self.phase == RunPhase::Aborting {
            self.succeeded()
        } else if self.phase == RunPhase::Announcing {
            if delivered {
                (self.moved(RunPhase::CheckingStart), RunActionView::CheckCancelled)
            } else {
                self.cancelled(Seq::empty())
            }
        } else if self.phase == RunPhase::Injecting {
            if delivered {
                self.next_turn()
            } else {
                self.cancelled(Seq::empty())
            }
        } else if !delivered {
            self.cancelled(self.answer.text)
        } else if self.phase == RunPhase::Forwarding {
            (self.moved(RunPhase::Pulling), RunActionView::Pull)
        } else {
            self.telling(self.told + 1)
        }
    }

    /// After cancellation was looked at.
    pub open spec fn after_check(self, cancelled: bool) -> (RunView, RunActionView) {
        if cancelled {
            self.cancelled(Seq::empty())
        } else if self.phase == RunPhase::CheckingStart {
            (self.moved(RunPhase::Gathering), RunActionView::GatherPolicies)
        } else if self.phase == RunPhase::CheckingTools {
            if self.settings.streaming {
                self.telling(0)
            } else {
                self.running()
            }
        } else {
            (self.moved(RunPhase::GuardingTools), RunActionView::AskGuards(self.snapshot()))
        }
    }

    /// After an event of the provider.
    pub open spec fn after_event(self, event: StreamEventView) -> (RunView, RunActionView) {
        let heard = RunView { answer: self.answer.after(event), ..self };
        match event_routing(event) {
            Routing::Forward => (heard.moved(RunPhase::Forwarding), RunActionView::Emit(event)),
            Routing::TraceOnly => (heard.moved(RunPhase::Tracing), RunActionView::Trace(event)),
            Routing::TraceLast => (heard.moved(RunPhase::TracingLast), RunActionView::Trace(event)),
            Routing::Ignore => (self.moved(RunPhase::Pulling), RunActionView::Pull),
        }
    }

    /// After the tools: their results join the conversation, and behind them
    /// what was queued meanwhile.
    pub open spec fn after_tools(self, results: Seq<ContentView>, queued: Seq<ContentView>) -> (
        RunView,
        RunActionView,
    ) {
        let heard = self.with_message(
            MessageView { role: Role::User, content: results },
        ).with_queued(queued);
        (heard.moved(RunPhase::CheckingEnd), RunActionView::CheckCancelled)
    }

    /// After the guards were asked. Where the run goes on, what was queued
    /// meanwhile joins the conversation, behind the prompt of a guard that sends
    /// the agent on.
    pub open spec fn after_guards(self, eval: GuardEvalView, queued: Seq<ContentView>) -> (
        RunView,
        RunActionView,
    ) {
        match eval {
            GuardEvalView::Stop => if self.phase == RunPhase::GuardingFinish {
                self.succeeded()
            } else {
                self.with_queued(queued).next_turn()
            },
            GuardEvalView::Abort { guard_name, reason } => if self.settings.streaming {
                (
                    self.moved(RunPhase::Aborting),
                    RunActionView::Emit(StreamEventView::GuardAborted { guard_name, reason }),
                )
            } else {
                self.succeeded()
            },
            GuardEvalView::Continue { guard_name, prompt, iteration } => {
                let prompted = self.with_message(
                    MessageView { role: Role::User, content: seq![ContentView::plain(prompt)] },
                ).with_queued(queued);
                if self.settings.streaming {
                    (
                        prompted.moved(RunPhase::Injecting),
                        RunActionView::Emit(
                            StreamEventView::ContinuationInjected { guard_name, iteration },
                        ),
                    )
                } else {
                    prompted.next_turn()
                }
            },
        }
    }

    /// What a reply does.
    pub open spec fn after(self, reply: RunReplyView) -> (RunView, RunActionView) {
        match reply {
            RunReplyView::TurnBegun(turn_id) => if self.settings.streaming {
                (
                    self.moved(RunPhase::Announcing),
                    RunActionView::Emit(StreamEventView::TurnStarted { turn_id }),
                )
            } else {
                (self.moved(RunPhase::CheckingStart), RunActionView::CheckCancelled)
            },
            RunReplyView::Sent { delivered } => self.after_sent(delivered),
            RunReplyView::CancelChecked { cancelled } => self.after_check(cancelled),
            RunReplyView::Policies(policies) => {
                let request = turn_request(self.settings, self.history, policies);
                let asked = RunView { answer: AnswerView::fresh(), told: 0, ..self };
                if self.settings.streaming {
                    (asked.moved(RunPhase::Opening), RunActionView::Open(request))
                } else {
                    (asked.moved(RunPhase::Answering), RunActionView::Complete(request))
                }
            },
            RunReplyView::Answered(response) => RunView {
                answer: AnswerView::whole(response),
                ..self
            }.concluded(),
            RunReplyView::AnswerFailed(source) => self.failed(source, Seq::empty()),
            RunReplyView::Opened => (self.moved(RunPhase::Pulling), RunActionView::Pull),
            RunReplyView::OpenFailed(source) => self.failed(source, Seq::empty()),
            RunReplyView::PullCancelled => self.cancelled(self.answer.text),
            RunReplyView::PulledFailure(source) => self.failed(source, self.answer.text),
            RunReplyView::PulledEvent(event) => self.after_event(event),
            RunReplyView::PulledEnd => self.concluded(),
            RunReplyView::Traced => if self.phase == RunPhase::TracingLast {
                self.concluded()
            } else {
                (self.moved(RunPhase::Pulling), RunActionView::Pull)
            },
            RunReplyView::ToolsDone { results, queued } => self.after_tools(results, queued),
            RunReplyView::Guarded { eval, queued } => self.after_guards(eval, queued),
        }
    }

    /// A run at its start.
    pub open spec fn begun(
        settings: RunSettingsView,
        tools: Seq<ToolSpecView>,
        messages: Seq<MessageView>,
    ) -> (RunView, RunActionView) {
        let fresh = RunView {
            settings,
            tools,
            history: messages,
            new_messages: Seq::empty(),
            usage: Usage::zero(),
            last_stop: None,
            turn: 0,
            answer: AnswerView::fresh(),
            told: 0,
            phase: RunPhase::Starting,
        };
        if settings.max_turns > 0 {
            (fresh, RunActionView::BeginTurn)
        } else {
            fresh.finished(
                Err(
                    AgentErrorView::MaxTurnsReached {
                        turns: 0,
                        partial: fresh.result(StopReason::EndTurn, Seq::empty()),
                    },
                ),
            )
        }
    }
}

/// The provider's answer of the current turn, as far as it came.
#[derive(Debug)]
struct Answer {
    text: String,
    buffer: String,
    content: Vec<Content>,
    calls: Vec<ToolCall>,
    stop: Option<StopReason>,
    usage: Usage,
}

impl View for Answer {
    type V = AnswerView;

    closed spec fn view(&self) -> AnswerView {
        AnswerView {
            text: self.text@,
            buffer: self.buffer@,
            content: views(self.content@),
            calls: views(self.calls@),
            stop: self.stop,
            usage: self.usage,
        }
    }
}

impl Answer {
    fn fresh() -> (r: Answer)
        ensures
            r@ == AnswerView::fresh(),
    {
        let r: Answer = Answer {
            text: String::new(),
            buffer: String::new(),
            content: Vec::new(),
            calls: Vec::new(),
            stop: None,
            usage: Usage::default(),
        };
        assert(r@ =~~= AnswerView::fresh());
        r
    }

    fn whole(response: Response) -> (r: Answer)
        ensures
            r@ == AnswerView::whole(response@),
    {
        let r: Answer = Answer {
            text: extract_text(&response.content),
            buffer: String::new(),
            calls: extract_calls(&response.content),
            content: response.content,
            stop: Some(response.stop_reason),
            usage: response.usage,
        };
        assert(r@ =~~= AnswerView::whole(response@));
        r
    }

    fn flush(&mut self)
        ensures
            final(self)@ == old(self)@.flushed(),
    {
        flush_text(&mut self.buffer, &mut self.content);
    }

    fn add_block(&mut self, block: Content)
        ensures
            final(self)@ == old(self)@.with_block(block@),
    {
        self.flush();
        proof {
            views_push(self.content@, block);
        }
        self.content.push(block);
    }

    fn hear(&mut self, event: &StreamEvent) -> (r: Routing)
        ensures
            final(self)@ == old(self)@.after(event@),
            r == event_routing(event@),
    {
        match event {
            StreamEvent::ContentDelta(delta) => {
                self.text.append(delta.as_str());
                self.buffer.append(delta.as_str());
                Routing::Forward
            },
            StreamEvent::ThinkingDelta { .. } => Routing::Forward,
            StreamEvent::ThinkingBlock { text, provider, metadata } => {
                self.add_block(
                    Content::Thinking {
                        text: text.clone(),
                        provider: *provider,
                        metadata: metadata.clone(),
                    },
                );
                Routing::Forward
            },
            StreamEvent::ToolUse { id, name, input } => {
                self.add_block(
                    Content::ToolUse { id: id.clone(), name: name.clone(), input: input.clone() },
                );
                let call: ToolCall = ToolCall {
                    id: id.clone(),
                    name: name.clone(),
                    input: input.clone(),
                };
                proof {
                    views_push(self.calls@, call);
                }
                self.calls.push(call);
                Routing::Forward
            },
            StreamEvent::MessageDelta { stop_reason } => {
                self.stop = Some(*stop_reason);
                Routing::TraceOnly
            },
            StreamEvent::Usage(usage) => {
                self.usage.merge_max(usage);
                Routing::TraceOnly
            },
            StreamEvent::Done => Routing::TraceLast,
            _ => Routing::Ignore,
        }
    }
}

/// A run of the agent loop.
#[derive(Debug)]
pub struct AgentRun {
    settings: RunSettings,
    registry: Arc<ToolRegistry>,
    history: Vec<Message>,
    new_messages: Vec<Message>,
    usage: Usage,
    last_stop: Option<StopReason>,
    turn: usize,
    answer: Answer,
    told: usize,
    phase: RunPhase,
}

impl View for AgentRun {
    type V = RunView;

    closed spec fn view(&self) -> RunView {
        RunView {
            settings: self.settings@,
            tools: self.registry@,
            history: views(self.history@),
            new_messages: views(self.new_messages@),
            usage: self.usage,
            last_stop: self.last_stop,
            turn: self.turn,
            answer: self.answer@,
            told: self.told,
            phase: self.phase,
        }
    }
}

impl AgentRun {
    /// Starts a run on a conversation.
    pub fn start(settings: RunSettings, registry: Arc<ToolRegistry>, messages: Vec<Message>) -> (r:
        (AgentRun, RunAction))
        ensures
            (r.0@, r.1@) == RunView::begun(settings@, registry@, views(messages@)),
    {
        let max_turns: usize = settings.max_turns;
        let mut run: AgentRun = AgentRun {
            settings,
            registry,
            history: messages,
            new_messages: Vec::new(),
            usage: Usage::default(),
            last_stop: None,
            turn: 0,
            answer: Answer::fresh(),
            told: 0,
            phase: RunPhase::Starting,
        };
        assert(run@.new_messages =~= Seq::empty());
        if max_turns > 0 {
            (run, RunAction::BeginTurn)
        } else {
            let ghost before = run@;
            run.phase = RunPhase::Over;
            let partial: AgentResult = AgentResult {
                new_messages: Vec::new(),
                text: String::new(),
                usage: Usage::default(),
                stop_reason: StopReason::EndTurn,
            };
            assert(partial@ =~~= before.result(StopReason::EndTurn, Seq::empty()));
            (run, RunAction::Finish(Err(AgentError::MaxTurnsReached { turns: 0, partial })))
        }
    }

    fn result(&self, stop_reason: StopReason, text: String) -> (r: AgentResult)
        ensures
            r@ == self@.result(stop_reason, text@),
    {
        AgentResult {
            new_messages: clone_messages(&self.new_messages),
            text,
            usage: self.usage,
            stop_reason,
        }
    }

    fn stop_so_far(&self) -> (r: StopReason)
        ensures
            r == self@.stop_so_far(),
    {
        match self.last_stop {
            Some(stop) => stop,
            None => StopReason::EndTurn,
        }
    }

    fn cancel(&mut self, text: String) -> (r: RunAction)
        ensures
            (final(self)@, r@) == old(self)@.cancelled(text@),
    {
        let partial: AgentResult = self.result(StopReason::Cancelled, text);
        self.phase = RunPhase::Over;
        RunAction::Finish(Err(AgentError::Cancelled { partial }))
    }

    fn fail(&mut self, source: ProviderError, text: String) -> (r: RunAction)
        ensures
            (final(self)@, r@) == old(self)@.failed(source@, text@),
    {
        let partial: AgentResult = self.result(self.stop_so_far(), text);
        self.phase = RunPhase::Over;
        RunAction::Finish(Err(AgentError::Provider { source, partial }))
    }

    fn succeed(&mut self) -> (r: RunAction)
        ensures
            (final(self)@, r@) == old(self)@.succeeded(),
    {
        let result: AgentResult = self.result(self.stop_so_far(), self.answer.text.clone());
        self.phase = RunPhase::Over;
        RunAction::Finish(Ok(result))
    }

    fn add_message(&mut self, message: Message)
        ensures
            final(self)@ == old(self)@.with_message(message@),
    {
        let copy: Message = message.clone();
        proof {
            views_push(self.history@, copy);
            views_push(self.new_messages@, message);
        }
        self.history.push(copy);
        self.new_messages.push(message);
    }

    fn add_queued(&mut self, queued: Vec<SteerCommand>)
        ensures
            final(self)@ == old(self)@.with_queued(queued_blocks(queued@)),
    {
        let content: Vec<Content> = gather_queued(queued);
        if content.len() > 0 {
            self.add_message(Message::user(content));
        }
    }

    fn next_turn(&mut self) -> (r: RunAction)
        ensures
            (final(self)@, r@) == old(self)@.next_turn(),
    {
        if self.settings.max_turns > 0 && self.turn < self.settings.max_turns - 1 {
            self.turn = self.turn + 1;
            self.phase = RunPhase::Starting;
            RunAction::BeginTurn
        } else {
            let empty: String = String::new();
            assert(empty@ =~= Seq::empty());
            let partial: AgentResult = self.result(self.stop_so_far(), empty);
            self.phase = RunPhase::Over;
            RunAction::Finish(
                Err(
                    AgentError::MaxTurnsReached { turns: self.settings.max_turns, partial },
                ),
            )
        }
    }

    fn snapshot(&self) -> (r: AgentSnapshot)
        ensures
            r@ == self@.snapshot(),
    {
        let mut labels: Vec<String> = Vec::new();
        let mut i: usize = 0;
        while i < self.answer.calls.len()
            invariant
                i <= self.answer.calls.len(),
                labels.len() == i,
                forall|k: int|
                    0 <= k < i ==> (#[trigger] labels@[k])@ == call_label(self.answer@.calls[k]),
            decreases self.answer.calls.len() - i,
        {
            let mut label: String = self.answer.calls[i].name.clone();
            label.append(":");
            label.append(self.answer.calls[i].id.as_str());
            labels.push(label);
            i = i + 1;
        }
        let r: AgentSnapshot = AgentSnapshot {
            turn_count: if self.turn < usize::MAX {
                self.turn + 1
            } else {
                usize::MAX
            },
            last_assistant_message: Some(Message::assistant(clone_contents(&self.answer.content))),
            recent_tool_calls: labels,
        };
        assert(r@.recent_tool_calls =~= self@.snapshot().recent_tool_calls);
        r
    }

    fn conclude(&mut self) -> (r: RunAction)
        ensures
            (final(self)@, r@) == old(self)@.concluded(),
    {
        self.answer.flush();
        let stop: StopReason = match self.answer.stop {
            Some(s) => s,
            None => StopReason::EndTurn,
        };
        self.usage.add(&self.answer.usage);
        self.last_stop = Some(stop);
        self.add_message(Message::assistant(clone_contents(&self.answer.content)));
        if self.answer.calls.len() == 0 || stop == StopReason::EndTurn {
            let snapshot: AgentSnapshot = self.snapshot();
            self.phase = RunPhase::GuardingFinish;
            RunAction::AskGuards(snapshot)
        } else {
            self.phase = RunPhase::CheckingTools;
            RunAction::CheckCancelled
        }
    }

    fn tell(&mut self, at: usize) -> (r: RunAction)
        ensures
            (final(self)@, r@) == old(self)@.telling(at as int),
    {
        if at >= self.answer.calls.len() {
            return self.run_tools();
        }
        let call: &ToolCall = &self.answer.calls[at];
        let class: ToolClass = match self.registry.get(call.name.as_str()) {
            Some(tool) => tool.class,
            None => ToolClass::Mutating,
        };
        let event: StreamEvent = StreamEvent::ToolCallPending {
            id: call.id.clone(),
            name: call.name.clone(),
            input: call.input.clone(),
            class,
        };
        self.told = at;
        self.phase = RunPhase::Pending;
        RunAction::Emit(event)
    }

    fn run_tools(&mut self) -> (r: RunAction)
        ensures
            (final(self)@, r@) == old(self)@.running(),
    {
        let calls: Vec<ToolCall> = clone_calls(&self.answer.calls);
        self.phase = RunPhase::RunningTools;
        RunAction::RunTools(calls)
    }

    fn sent(&mut self, delivered: bool) -> (r: RunAction)
        requires
            old(self)@.expects(RunReplyView::Sent { delivered }),
        ensures
            (final(self)@, r@) == old(self)@.after_sent(delivered),
    {
        let empty: String = String::new();
        assert(empty@ =~= Seq::empty());
        match self.phase {
            RunPhase::Aborting => self.succeed(),
            RunPhase::Announcing => if delivered {
                self.phase = RunPhase::CheckingStart;
                RunAction::CheckCancelled
            } else {
                self.cancel(empty)
            },
            RunPhase::Injecting => if delivered {
                self.next_turn()
            } else {
                self.cancel(empty)
            },
            RunPhase::Forwarding => if delivered {
                self.phase = RunPhase::Pulling;
                RunAction::Pull
            } else {
                self.cancel(self.answer.text.clone())
            },
            _ => if !delivered {
                self.cancel(self.answer.text.clone())
            } else if self.told < self.answer.calls.len() {
                self.tell(self.told + 1)
            } else {
                self.run_tools()
            },
        }
    }

    fn checked(&mut self, cancelled: bool) -> (r: RunAction)
        requires
            old(self)@.expects(RunReplyView::CancelChecked { cancelled }),
        ensures
            (final(self)@, r@) == old(self)@.after_check(cancelled),
    {
        if cancelled {
            let empty: String = String::new();
            assert(empty@ =~= Seq::empty());
            return self.cancel(empty);
        }
        match self.phase {
            RunPhase::CheckingStart => {
                self.phase = RunPhase::Gathering;
                RunAction::GatherPolicies
            },
            RunPhase::CheckingTools => if self.settings.streaming {
                self.tell(0)
            } else {
                self.run_tools()
            },
            _ => {
                let snapshot: AgentSnapshot = self.snapshot();
                self.phase = RunPhase::GuardingTools;
                RunAction::AskGuards(snapshot)
            },
        }
    }

    fn ask(&mut self, policies: Vec<AppliedPromptPolicy>) -> (r: RunAction)
        requires
            old(self)@.phase == RunPhase::Gathering,
        ensures
            (final(self)@, r@) == old(self)@.after(RunReplyView::Policies(views(policies@))),
    {
        let mut tools: Vec<ToolDefinition> = Vec::new();
        let mut i: usize = 0;
        while i < self.settings.tools.len()
            invariant
                i <= self.settings.tools.len(),
                *self == *old(self),
                tools.len() == i,
                forall|k: int|
                    0 <= k < i ==> (#[trigger] tools@[k])@ == self.settings.tools@[k]@,
            decreases self.settings.tools.len() - i,
        {
            tools.push(self.settings.tools[i].clone());
            i = i + 1;
        }
        assert(views(tools@) =~= views(self.settings.tools@));
        let request: Request = Request {
            model: self.settings.model.clone(),
            system: system_with_policies(&self.settings.system, &policies),
            messages: clone_messages(&self.history),
            tools,
            max_tokens: self.settings.max_tokens,
            temperature: match &self.settings.temperature {
                Some(number) => Some(number.copy()),
                None => None,
            },
            thinking: match &self.settings.thinking {
                Some(thinking) => Some(thinking.clone()),
                None => None,
            },
        };
        self.answer = Answer::fresh();
        self.told = 0;
        if self.settings.streaming {
            self.phase = RunPhase::Opening;
            RunAction::Open(request)
        } else {
            self.phase = RunPhase::Answering;
            RunAction::Complete(request)
        }
    }

    fn hear(&mut self, event: StreamEvent) -> (r: RunAction)
        requires
            old(self)@.phase == RunPhase::Pulling,
        ensures
            (final(self)@, r@) == old(self)@.after_event(event@),
    {
        match self.answer.hear(&event) {
            Routing::Forward => {
                self.phase = RunPhase::Forwarding;
                RunAction::Emit(event)
            },
            Routing::TraceOnly => {
                self.phase = RunPhase::Tracing;
                RunAction::Trace(event)
            },
            Routing::TraceLast => {
                self.phase = RunPhase::TracingLast;
                RunAction::Trace(event)
            },
            Routing::Ignore => RunAction::Pull,
        }
    }

    fn tools_done(&mut self, results: Vec<Content>, queued: Vec<SteerCommand>) -> (r: RunAction)
        requires
            old(self)@.phase == RunPhase::RunningTools,
        ensures
            (final(self)@, r@) == old(self)@.after_tools(
                views(results@),
                queued_blocks(queued@),
            ),
    {
        self.add_message(Message::user(results));
        self.add_queued(queued);
        self.phase = RunPhase::CheckingEnd;
        RunAction::CheckCancelled
    }

    fn guarded(&mut self, eval: GuardEval, queued: Vec<SteerCommand>) -> (r: RunAction)
        requires
            old(self)@.phase == RunPhase::GuardingFinish || old(self)@.phase
                == RunPhase::GuardingTools,
        ensures
            (final(self)@, r@) == old(self)@.after_guards(eval@, queued_blocks(queued@)),
    {
        match eval {
            GuardEval::Stop => if self.phase == RunPhase::GuardingFinish {
                self.succeed()
            } else {
                self.add_queued(queued);
                self.next_turn()
            },
            GuardEval::Abort { guard_name, reason } => if self.settings.streaming {
                self.phase = RunPhase::Aborting;
                RunAction::Emit(StreamEvent::GuardAborted { guard_name, reason })
            } else {
                self.succeed()
            },
            GuardEval::Continue { guard_name, prompt, iteration } => {
                self.add_message(Message::user_text(prompt.as_str()));
                self.add_queued(queued);
                if self.settings.streaming {
                    self.phase = RunPhase::Injecting;
                    RunAction::Emit(StreamEvent::ContinuationInjected { guard_name, iteration })
                } else {
                    self.next_turn()
                }
            },
        }
    }

    /// Whether a reply fits where the run stands.
    pub fn expects(&self, reply: &RunReply) -> (r: bool)
        ensures
            r == self@.expects(reply@),
    {
        match reply {
            RunReply::TurnBegun(_) => self.phase == RunPhase::Starting,
            RunReply::Sent { .. } => self.phase == RunPhase::Announcing || self.phase
                == RunPhase::Forwarding || self.phase == RunPhase::Pending || self.phase
                == RunPhase::Injecting || self.phase == RunPhase::Aborting,
            RunReply::CancelChecked { .. } => self.phase == RunPhase::CheckingStart || self.phase
                == RunPhase::CheckingTools || self.phase == RunPhase::CheckingEnd,
            RunReply::Policies(_) => self.phase == RunPhase::Gathering,
            RunReply::Answered(_) => self.phase == RunPhase::Answering,
            RunReply::Opened(_) => self.phase == RunPhase::Opening,
            RunReply::Pulled(_) => self.phase == RunPhase::Pulling,
            RunReply::Traced => self.phase == RunPhase::Tracing || self.phase
                == RunPhase::TracingLast,
            RunReply::ToolsDone { .. } => self.phase == RunPhase::RunningTools,
            RunReply::Guarded { .. } => self.phase == RunPhase::GuardingFinish || self.phase
                == RunPhase::GuardingTools,
        }
    }

    /// Takes a reply and says what to do next.
    pub fn step(&mut self, reply: RunReply) -> (r: RunAction)
        requires
            old(self)@.expects(reply@),
        ensures
            (final(self)@, r@) == old(self)@.after(reply@),
    {
        match reply {
            RunReply::TurnBegun(turn_id) => if self.settings.streaming {
                self.phase = RunPhase::Announcing;
                RunAction::Emit(StreamEvent::TurnStarted { turn_id })
            } else {
                self.phase = RunPhase::CheckingStart;
                RunAction::CheckCancelled
            },
            RunReply::Sent { delivered } => self.sent(delivered),
            RunReply::CancelChecked { cancelled } => self.checked(cancelled),
            RunReply::Policies(policies) => self.ask(policies),
            RunReply::Answered(Ok(response)) => {
                self.answer = Answer::whole(response);
                self.conclude()
            },
            RunReply::Answered(Err(source)) => {
                let empty: String = String::new();
                assert(empty@ =~= Seq::empty());
                self.fail(source, empty)
            },
            RunReply::Opened(Ok(_)) => {
                self.phase = RunPhase::Pulling;
                RunAction::Pull
            },
            RunReply::Opened(Err(source)) => {
                let empty: String = String::new();
                assert(empty@ =~= Seq::empty());
                self.fail(source, empty)
            },
            RunReply::Pulled(Pull::Cancelled) => self.cancel(self.answer.text.clone()),
            RunReply::Pulled(Pull::Item(Ok(event))) => self.hear(event),
            RunReply::Pulled(Pull::Item(Err(source))) => self.fail(
                source,
                self.answer.text.clone(),
            ),
            RunReply::Pulled(Pull::Closed) => self.conclude(),
            RunReply::Traced => if self.phase == RunPhase::TracingLast {
                self.conclude()
            } else {
                self.phase = RunPhase::Pulling;
                RunAction::Pull
            },
            RunReply::ToolsDone { results, queued } => self.tools_done(results, queued),
            RunReply::Guarded { eval, queued } => self.guarded(eval, queued),
        }
    }
}

} // verus!
