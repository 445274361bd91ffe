//! What a caller may do to a running agent.
use crate::agent::RunAction;
use crate::message::{Content, ContentView};
use crate::steering::{
    ended, started, InterruptError, InterruptOutcome, InterruptTarget, IntoQueueContent,
    SteerCommand, SteerError, ToolRunTracker, TurnId,
};
use crate::text::{same_text, views};
use vstd::prelude::*;

verus! {

/// The state behind a handle: the active turn and the tools in flight, each
/// with what cancels it.
#[derive(Debug)]
pub struct AgentHandle<T> {
    active_turn: Option<TurnId>,
    tool_runs: ToolRunTracker<T>,
}

/// Whether a user says such a block.
pub open spec fn user_block(block: ContentView) -> bool {
    block is Text
}

/// Whether every block is something that a user says.
pub open spec fn user_content(blocks: Seq<ContentView>) -> bool {
    forall|i: int| 0 <= i < blocks.len() ==> user_block(#[trigger] blocks[i])
}

fn is_user_content(content: &Vec<Content>) -> (r: bool)
    ensures
        r == user_content(views(content@)),
{
    let mut i: usize = 0;
    while i < content.len()
        invariant
            i <= content.len(),
            forall|k: int| 0 <= k < i ==> user_block(#[trigger] views(content@)[k]),
        decreases content.len() - i,
    {
        let fits: bool = matches!(&content[i], Content::Text { .. });
        assert(fits == user_block(views(content@)[i as int]));
        if !fits {
            return false;
        }
        i = i + 1;
    }
    true
}

/// The text of an optional turn.
pub open spec fn optional_turn(turn: Option<TurnId>) -> Option<Seq<char>> {
    match turn {
        Some(id) => Some(id@),
        None => None,
    }
}

/// What an interrupt cancels.
pub enum Interrupted<'a, T> {
    /// Nothing.
    Nothing,
    /// One tool call.
    Tool(&'a T),
    /// The whole run.
    Run,
}

/// Whether queueing blocks for an active turn, while one may be expected, comes
/// to a result: the content must not be empty and must be what a user says, a
/// turn must be active, and it must be the expected one.
pub open spec fn queues(
    active: Option<Seq<char>>,
    blocks: Seq<ContentView>,
    expected_turn: Option<Seq<char>>,
    result: Result<(TurnId, SteerCommand), SteerError>,
) -> bool {
    match result {
        Ok((turn_id, command)) => blocks.len() > 0 && user_content(blocks) && active == Some(
            turn_id@,
        ) && (expected_turn is Some ==> expected_turn == active) && command.blocks() == blocks,
        Err(SteerError::EmptyContent) => blocks.len() == 0,
        Err(SteerError::InvalidContent) => blocks.len() > 0 && !user_content(blocks),
        Err(SteerError::NoActiveTurn) => blocks.len() > 0 && user_content(blocks) && active
            is None,
        Err(SteerError::ExpectedTurnMismatch { expected, actual }) => blocks.len() > 0
            && user_content(blocks) && active == Some(actual@) && expected_turn == Some(expected@)
            && expected@ != actual@,
        Err(SteerError::ChannelClosed) => false,
    }
}

/// Content is queued exactly where it is not empty, is all text, and a turn is
/// active that is the expected one where one is expected; the agent then gets
/// the content as it is, for the active turn. An error names what was wrong.
pub proof fn content_is_queued_for_the_active_turn(
    active: Option<Seq<char>>,
    blocks: Seq<ContentView>,
    expected_turn: Option<Seq<char>>,
    result: Result<(TurnId, SteerCommand), SteerError>,
)
    requires
        queues(active, blocks, expected_turn, result),
    ensures
        ({
            let all_text = forall|i: int| 0 <= i < blocks.len() ==> (#[trigger] blocks[i]) is Text;
            &&& result is Ok <==> blocks.len() > 0 && all_text && active is Some && (expected_turn
                is None || expected_turn == active)
            &&& match result {
                Ok((turn_id, SteerCommand::Append { content })) => Some(turn_id@) == active
                    && views(content@) == blocks,
                Err(error) => if blocks.len() == 0 {
                    error is EmptyContent
                } else if !all_text {
                    error is InvalidContent
                } else if active is None {
                    error is NoActiveTurn
                } else {
                    match error {
                        SteerError::ExpectedTurnMismatch { expected, actual } => {
                            Some(expected@) == expected_turn && Some(actual@) == active
                        },
                        _ => false,
                    }
                },
            }
        }),
{
    users_say_texts(blocks);
}

/// Whether interrupting a target comes to a result, given the active turn and
/// the tools in flight.
pub open spec fn interrupts<'a, T>(
    active: Option<Seq<char>>,
    runs: ToolRunTracker<T>,
    target: InterruptTarget,
    result: Result<(InterruptOutcome, Interrupted<'a, T>), InterruptError>,
) -> bool {
    match target {
        InterruptTarget::Tool { tool_call_id } => match runs.running(tool_call_id@) {
            Some(cancel) => result is Ok && result->Ok_0.0 == InterruptOutcome::Cancelled
                && result->Ok_0.1 == Interrupted::Tool(&cancel),
            None => result is Ok && result->Ok_0.1 is Nothing && result->Ok_0.0 == if runs.done(
                tool_call_id@,
            ) {
                InterruptOutcome::AlreadyDone
            } else {
                InterruptOutcome::NotInFlight
            },
        },
        InterruptTarget::Turn { turn_id, .. } => if active == Some(turn_id@) {
            result is Ok && result->Ok_0.0 == InterruptOutcome::Cancelled && result->Ok_0.1 is Run
        } else {
            match result {
                Err(InterruptError::UnknownTurn(id)) => id@ == turn_id@,
                _ => false,
            }
        },
        InterruptTarget::Session => result is Ok && result->Ok_0.0 == InterruptOutcome::Cancelled
            && result->Ok_0.1 is Run,
    }
}

/// An interrupt cancels what it names and nothing else: a tool call in flight by
/// its own token, and the whole run for the active turn or the session. A tool
/// call that is not in flight is left alone, and another turn is unknown.
pub proof fn interrupts_cancel_what_they_name<'a, T>(
    active: Option<Seq<char>>,
    runs: ToolRunTracker<T>,
    target: InterruptTarget,
    result: Result<(InterruptOutcome, Interrupted<'a, T>), InterruptError>,
)
    requires
        interrupts(active, runs, target, result),
    ensures
        match target {
            InterruptTarget::Tool { tool_call_id } => match result {
                Ok((outcome, Interrupted::Tool(token))) => outcome == InterruptOutcome::Cancelled
                    && runs.running(tool_call_id@) == Some(*token),
                Ok((outcome, Interrupted::Nothing)) => runs.running(tool_call_id@) is None && (
                outcome == InterruptOutcome::AlreadyDone <==> runs.done(tool_call_id@)) && outcome
                    != InterruptOutcome::Cancelled,
                _ => false,
            },
            InterruptTarget::Turn { turn_id, .. } => match result {
                Ok((outcome, what)) => active == Some(turn_id@) && outcome
                    == InterruptOutcome::Cancelled && what is Run,
                Err(error) => active != Some(turn_id@) && error is UnknownTurn,
            },
            InterruptTarget::Session => match result {
                Ok((outcome, what)) => outcome == InterruptOutcome::Cancelled && what is Run,
                Err(_) => false,
            },
        },
{
}

impl<T> AgentHandle<T> {
    /// The active turn.
    pub closed spec fn active(&self) -> Option<Seq<char>> {
        optional_turn(self.active_turn)
    }

    /// The tools in flight.
    pub closed spec fn runs(&self) -> ToolRunTracker<T> {
        self.tool_runs
    }

    /// A handle before the first turn.
    pub fn new() -> (r: AgentHandle<T>)
        ensures
            r.active() is None,
            forall|id: Seq<char>| (#[trigger] r.runs().running(id)) is None,
            forall|id: Seq<char>| !#[trigger] r.runs().done(id),
    {
        AgentHandle { active_turn: None, tool_runs: ToolRunTracker::new() }
    }

    /// Makes a turn the active one.
    pub fn begin_turn(&mut self, turn_id: TurnId)
        ensures
            final(self).active() == Some(turn_id@),
            final(self).runs() == old(self).runs(),
    {
        self.active_turn = Some(turn_id);
    }

    /// Leaves no turn active.
    pub fn clear_active_turn(&mut self)
        ensures
            final(self).active() is None,
            final(self).runs() == old(self).runs(),
    {
        self.active_turn = None;
    }

    /// Follows a run to its next action. No turn is active once the run hands
    /// out its result, whatever that is.
    pub fn follow(&mut self, action: &RunAction)
        ensures
            final(self).active() == if action@ is Finish {
                None
            } else {
                old(self).active()
            },
            final(self).runs() == old(self).runs(),
    {
        if let RunAction::Finish(_) = action {
            self.clear_active_turn();
        }
    }

    /// The active turn, if the agent is inside one.
    pub fn current_turn_id(&self) -> (r: Option<TurnId>)
        ensures
            optional_turn(r) == self.active(),
    {
        match &self.active_turn {
            Some(turn_id) => Some(turn_id.clone()),
            None => None,
        }
    }

    /// Checks content that is to be queued for the next boundary: it must not
    /// be empty and must be what a user says, a turn must be active, and it
    /// must be the expected one where one is expected. What is to be sent to
    /// the agent comes back with the active turn.
    pub fn queue_user_message<C: IntoQueueContent>(
        &self,
        content: C,
        expected_turn_id: Option<TurnId>,
    ) -> (r: Result<(TurnId, SteerCommand), SteerError>)
        ensures
            queues(
                self.active(),
                content.queue_content(),
                optional_turn(expected_turn_id),
                r,
            ),
    {
        let blocks: Vec<Content> = content.into_queue_content();
        if blocks.len() == 0 {
            return Err(SteerError::EmptyContent);
        }
        if !is_user_content(&blocks) {
            return Err(SteerError::InvalidContent);
        }
        let active: TurnId = match &self.active_turn {
            Some(turn_id) => turn_id.clone(),
            None => return Err(SteerError::NoActiveTurn),
        };
        if let Some(expected) = expected_turn_id {
            if !same_text(expected.as_str(), active.as_str()) {
                return Err(SteerError::ExpectedTurnMismatch { expected, actual: active });
            }
        }
        Ok((active, SteerCommand::Append { content: blocks }))
    }

    /// What queueing came to, given whether the agent took what was sent.
    pub fn queued(turn_id: TurnId, sent: bool) -> (r: Result<TurnId, SteerError>)
        ensures
            match r {
                Ok(id) => sent && id@ == turn_id@,
                Err(error) => !sent && error is ChannelClosed,
            },
    {
        if sent {
            Ok(turn_id)
        } else {
            Err(SteerError::ChannelClosed)
        }
    }

    /// Interrupts a tool call, a turn or the whole session: what it comes to,
    /// and what is to be cancelled. A turn that is not the active one is
    /// unknown.
    pub fn interrupt(&self, target: InterruptTarget) -> (r: Result<
        (InterruptOutcome, Interrupted<'_, T>),
        InterruptError,
    >)
        ensures
            interrupts(self.active(), self.runs(), target, r),
    {
        match target {
            InterruptTarget::Tool { tool_call_id } => {
                let (outcome, cancel): (InterruptOutcome, Option<&T>) = self.tool_runs.interrupt(
                    tool_call_id.as_str(),
                );
                match cancel {
                    Some(token) => Ok((outcome, Interrupted::Tool(token))),
                    None => Ok((outcome, Interrupted::Nothing)),
                }
            },
            InterruptTarget::Turn { turn_id, .. } => {
                let known: bool = match &self.active_turn {
                    Some(active) => same_text(active.as_str(), turn_id.as_str()),
                    None => false,
                };
                if known {
                    Ok((InterruptOutcome::Cancelled, Interrupted::Run))
                } else {
                    Err(InterruptError::UnknownTurn(turn_id))
                }
            },
            InterruptTarget::Session => Ok((InterruptOutcome::Cancelled, Interrupted::Run)),
        }
    }

    /// Notes that a tool call is in flight, with what cancels it.
    pub fn register(&mut self, tool_call_id: &str, cancel: T)
        ensures
            final(self).active() == old(self).active(),
            started(old(self).runs(), final(self).runs(), tool_call_id@, cancel),
    {
        self.tool_runs.register(tool_call_id, cancel);
    }

    /// Notes that a tool call is done.
    pub fn mark_done(&mut self, tool_call_id: &str)
        ensures
            final(self).active() == old(self).active(),
            ended(old(self).runs(), final(self).runs(), tool_call_id@),
    {
        self.tool_runs.mark_done(tool_call_id);
    }
}

/// What a user says is text, and nothing else is.
pub proof fn users_say_texts(blocks: Seq<ContentView>)
    ensures
        user_content(blocks) <==> !exists|i: int|
            0 <= i < blocks.len() && !((#[trigger] blocks[i]) is Text),
{
    if user_content(blocks) {
        assert forall|i: int| 0 <= i < blocks.len() implies (#[trigger] blocks[i]) is Text by {
            assert(user_block(blocks[i]));
        }
    }
}

} // verus!
