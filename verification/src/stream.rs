//! Events of a running turn.
use crate::error::{ProviderError, ProviderErrorView};
use crate::json::{Json, JsonView};
use crate::message::{
    StopReason, ThinkingMetadata, ThinkingMetadataView, ThinkingProvider, Usage,
};
use crate::mode::ModeAuthority;
use crate::steering::TurnId;
use crate::tool::ToolClass;
use vstd::prelude::*;

verus! {

/// What a provider or an agent reports while it works.
#[derive(Clone, Debug)]
pub enum StreamEvent {
    /// More text of the answer.
    ContentDelta(String),
    /// More text of the reasoning.
    ThinkingDelta { text: String },
    /// A complete block of reasoning.
    ThinkingBlock { text: String, provider: ThinkingProvider, metadata: ThinkingMetadata },
    /// A complete tool call.
    ToolUse { id: String, name: String, input: Json },
    /// A tool call that waits for its turn.
    ToolCallPending { id: String, name: String, input: Json, class: ToolClass },
    /// Why the model stopped.
    MessageDelta { stop_reason: StopReason },
    /// Token counts.
    Usage(Usage),
    /// The provider has nothing more to say.
    Done,
    /// An agent turn began.
    TurnStarted { turn_id: TurnId },
    /// Another mode is in force.
    ModeChanged { from: String, to: String, authority: ModeAuthority },
    /// A mode change waits to be applied.
    ModeChangeRequested { from: String, to: String, authority: ModeAuthority },
    /// A guard sent the agent on.
    ContinuationInjected { guard_name: String, iteration: u32 },
    /// A guard ended the run.
    GuardAborted { guard_name: String, reason: String },
    /// A prompt policy was installed.
    PolicyInstalled { name: String },
    /// A prompt policy was removed.
    PolicyRemoved { name: String },
    /// A prompt policy went into a request.
    PolicyApplied { name: String, precedence: u8 },
}

/// What a [`StreamEvent`] stands for.
#[verifier::ext_equal]
pub enum StreamEventView {
    ContentDelta(Seq<char>),
    ThinkingDelta { text: Seq<char> },
    ThinkingBlock { text: Seq<char>, provider: ThinkingProvider, metadata: ThinkingMetadataView },
    ToolUse { id: Seq<char>, name: Seq<char>, input: JsonView },
    ToolCallPending { id: Seq<char>, name: Seq<char>, input: JsonView, class: ToolClass },
    MessageDelta { stop_reason: StopReason },
    Usage(Usage),
    Done,
    TurnStarted { turn_id: Seq<char> },
    ModeChanged { from: Seq<char>, to: Seq<char>, authority: ModeAuthority },
    ModeChangeRequested { from: Seq<char>, to: Seq<char>, authority: ModeAuthority },
    ContinuationInjected { guard_name: Seq<char>, iteration: u32 },
    GuardAborted { guard_name: Seq<char>, reason: Seq<char> },
    PolicyInstalled { name: Seq<char> },
    PolicyRemoved { name: Seq<char> },
    PolicyApplied { name: Seq<char>, precedence: u8 },
}

impl View for StreamEvent {
    type V = StreamEventView;

    open spec fn view(&self) -> StreamEventView {
        match *self {
            StreamEvent::ContentDelta(text) => StreamEventView::ContentDelta(text@),
            StreamEvent::ThinkingDelta { text } => StreamEventView::ThinkingDelta { text: text@ },
            StreamEvent::ThinkingBlock { text, provider, metadata } => {
                StreamEventView::ThinkingBlock { text: text@, provider, metadata: metadata@ }
            },
            StreamEvent::ToolUse { id, name, input } => StreamEventView::ToolUse {
                id: id@,
                name: name@,
                input: input@,
            },
            StreamEvent::ToolCallPending { id, name, input, class } => {
                StreamEventView::ToolCallPending { id: id@, name: name@, input: input@, class }
            },
            StreamEvent::MessageDelta { stop_reason } => StreamEventView::MessageDelta {
                stop_reason,
            },
            StreamEvent::Usage(usage) => StreamEventView::Usage(usage),
            StreamEvent::Done => StreamEventView::Done,
            StreamEvent::TurnStarted { turn_id } => StreamEventView::TurnStarted {
                turn_id: turn_id@,
            },
            StreamEvent::ModeChanged { from, to, authority } => StreamEventView::ModeChanged {
                from: from@,
                to: to@,
                authority,
            },
            StreamEvent::ModeChangeRequested { from, to, authority } => {
                StreamEventView::ModeChangeRequested { from: from@, to: to@, authority }
            },
            StreamEvent::ContinuationInjected { guard_name, iteration } => {
                StreamEventView::ContinuationInjected { guard_name: guard_name@, iteration }
            },
            StreamEvent::GuardAborted { guard_name, reason } => StreamEventView::GuardAborted {
                guard_name: guard_name@,
                reason: reason@,
            },
            StreamEvent::PolicyInstalled { name } => StreamEventView::PolicyInstalled {
                name: name@,
            },
            StreamEvent::PolicyRemoved { name } => StreamEventView::PolicyRemoved { name: name@ },
            StreamEvent::PolicyApplied { name, precedence } => StreamEventView::PolicyApplied {
                name: name@,
                precedence,
            },
        }
    }
}

/// One item of a provider's event stream.
pub open spec fn item_view(item: Result<StreamEvent, ProviderError>) -> Result<
    StreamEventView,
    ProviderErrorView,
> {
    match item {
        Ok(event) => Ok(event@),
        Err(error) => Err(error@),
    }
}

/// The items of a provider's event stream.
pub open spec fn items_view(items: Seq<Result<StreamEvent, ProviderError>>) -> Seq<
    Result<StreamEventView, ProviderErrorView>,
> {
    Seq::new(items.len(), |i: int| item_view(items[i]))
}

} // verus!
