//! Runtime modes: what an agent may do for the time being.
use crate::message::optional_text;
use crate::stream::{StreamEvent, StreamEventView};
use crate::tool::ToolClass;
use vstd::prelude::*;
use vstd::string::*;

verus! {

/// Who asks for a mode change.
#[derive(Clone, Copy, Debug, PartialEq, Eq, Structural)]
pub enum ModeAuthority {
    Operator,
    Agent,
}

/// What a mode says of a tool.
#[derive(Clone, Debug, PartialEq, Eq)]
pub enum ModeDecision {
    Allow,
    Deny { reason: String },
}

/// A mode. Its answers may change from call to call; a mode that leaves a
/// question to the trait gives the answer stated there.
pub trait AgentMode: Send + Sync {
    fn name(&self) -> String;

    /// Whether mutating tools may run; they may unless the mode says
    /// otherwise.
    fn allows_mutating_tools(&self) -> (r: bool)
        default_ensures
            r,
    {
        true
    }

    /// What the mode decides on one tool; nothing, unless the mode says
    /// otherwise.
    fn tool_gate(&self, _tool_name: &str, _class: ToolClass) -> (r: Option<ModeDecision>)
        default_ensures
            r is None,
    {
        None
    }

    /// What the mode adds to the system prompt; nothing, unless the mode says
    /// otherwise.
    fn system_prompt_addendum(&self) -> (r: String)
        default_ensures
            r@ == Seq::<char>::empty(),
    {
        String::new()
    }
}

/// Everything is as configured.
#[derive(Clone, Copy, Debug, PartialEq, Eq, Structural)]
pub struct DefaultMode;

impl AgentMode for DefaultMode {
    fn name(&self) -> (r: String)
        ensures
            r@ == "default"@,
    {
        "default".to_owned()
    }

    fn allows_mutating_tools(&self) -> (r: bool)
        ensures
            r,
    {
        true
    }

    fn tool_gate(&self, tool_name: &str, class: ToolClass) -> (r: Option<ModeDecision>)
        ensures
            r is None,
    {
        None
    }

    fn system_prompt_addendum(&self) -> (r: String)
        ensures
            r@ == ""@,
    {
        "".to_owned()
    }
}

/// The agent plans and changes nothing.
#[derive(Clone, Copy, Debug, PartialEq, Eq, Structural)]
pub struct PlanMode;

impl AgentMode for PlanMode {
    fn name(&self) -> (r: String)
        ensures
            r@ == "plan"@,
    {
        "plan".to_owned()
    }

    fn allows_mutating_tools(&self) -> (r: bool)
        ensures
            !r,
    {
        false
    }

    fn tool_gate(&self, tool_name: &str, class: ToolClass) -> (r: Option<ModeDecision>)
        ensures
            r is None,
    {
        None
    }

    fn system_prompt_addendum(&self) -> (r: String)
        ensures
            r@
                == "You are in Plan mode. Outline the approach; do not edit, write, or run mutating commands."@,
    {
        "You are in Plan mode. Outline the approach; do not edit, write, or run mutating commands.".to_owned()
    }
}

/// Edits are accepted.
#[derive(Clone, Copy, Debug, PartialEq, Eq, Structural)]
pub struct AcceptEditsMode;

impl AgentMode for AcceptEditsMode {
    fn name(&self) -> (r: String)
        ensures
            r@ == "accept-edits"@,
    {
        "accept-edits".to_owned()
    }

    fn allows_mutating_tools(&self) -> (r: bool)
        ensures
            r,
    {
        true
    }

    fn tool_gate(&self, tool_name: &str, class: ToolClass) -> (r: Option<ModeDecision>)
        ensures
            r is None,
    {
        None
    }

    fn system_prompt_addendum(&self) -> (r: String)
        ensures
            r@ == ""@,
    {
        "".to_owned()
    }
}

/// What came of asking the mode in force about a tool.
#[derive(Debug, PartialEq, Eq)]
pub enum ModeAnswer {
    /// No mode is in force.
    NoMode,
    /// The mode panicked.
    Panicked,
    /// The mode decided on this tool.
    Gated(ModeDecision),
    /// The mode left the tool to its general rule.
    Ungated { name: String, allows_mutating: bool },
}

/// Whether an answer is what a mode says of a tool: its decision on the tool
/// where it makes one, and else its general rule, which lets every tool that
/// only reads run.
pub open spec fn mode_says<M: AgentMode + ?Sized>(
    mode: &M,
    tool_name: &str,
    class: ToolClass,
    answer: ModeAnswer,
) -> bool {
    exists|gate: Option<ModeDecision>|
        #[trigger] call_ensures(M::tool_gate, (mode, tool_name, class), gate) && match gate {
            Some(decision) => answer == ModeAnswer::Gated(decision),
            None => match answer {
                ModeAnswer::Ungated { name, allows_mutating } => if class == ToolClass::ReadOnly {
                    allows_mutating
                } else {
                    call_ensures(M::allows_mutating_tools, (mode,), allows_mutating) && (
                    !allows_mutating ==> call_ensures(M::name, (mode,), name))
                },
                _ => false,
            },
        }
}

/// A mode that decides on a tool by itself is heard, whatever the tool does; one
/// that leaves it to its general rule keeps a mutating tool from running exactly
/// where that rule does, and no tool that only reads.
pub proof fn modes_are_heard<M: AgentMode + ?Sized>(
    mode: &M,
    tool_name: &str,
    class: ToolClass,
    answer: ModeAnswer,
    decision: ModeDecision,
    allows: bool,
)
    requires
        mode_says(mode, tool_name, class, answer),
    ensures
        (forall|gate: Option<ModeDecision>|
            #[trigger] call_ensures(M::tool_gate, (mode, tool_name, class), gate) ==> gate == Some(
                decision,
            )) ==> answer == ModeAnswer::Gated(decision),
        (forall|gate: Option<ModeDecision>|
            #[trigger] call_ensures(M::tool_gate, (mode, tool_name, class), gate) ==> gate is None)
            && (forall|rule: bool|
            #[trigger] call_ensures(M::allows_mutating_tools, (mode,), rule) ==> rule == allows)
            ==> match answer {
            ModeAnswer::Ungated { allows_mutating, .. } => allows_mutating == (class
                == ToolClass::ReadOnly || allows),
            _ => false,
        },
{
}

/// Asks a mode about a tool. Only what decides is asked: the general rule where
/// the mode does not decide on the tool by itself and the tool mutates, and the
/// name where that rule denies the tool.
pub fn ask_mode<M: AgentMode + ?Sized>(mode: &M, tool_name: &str, class: ToolClass) -> (r:
    ModeAnswer)
    ensures
        mode_says(mode, tool_name, class, r),
{
    match mode.tool_gate(tool_name, class) {
        Some(decision) => ModeAnswer::Gated(decision),
        None => if class == ToolClass::ReadOnly || mode.allows_mutating_tools() {
            ModeAnswer::Ungated { name: String::new(), allows_mutating: true }
        } else {
            ModeAnswer::Ungated { name: mode.name(), allows_mutating: false }
        },
    }
}

/// Why a mode denies a tool, if it does.
pub open spec fn mode_refusal(class: ToolClass, answer: ModeAnswer) -> Option<Seq<char>> {
    match answer {
        ModeAnswer::NoMode | ModeAnswer::Panicked => None,
        ModeAnswer::Gated(ModeDecision::Allow) => None,
        ModeAnswer::Gated(ModeDecision::Deny { reason }) => Some(reason@),
        ModeAnswer::Ungated { name, allows_mutating } => if class == ToolClass::Mutating
            && !allows_mutating {
            Some("mode '"@ + name@ + "' denies mutating tools"@)
        } else {
            None
        },
    }
}

/// What the model is told where the mode keeps a tool from running; `None`
/// where the tool may run.
pub open spec fn mode_denial_text(
    tool_name: Seq<char>,
    class: ToolClass,
    answer: ModeAnswer,
) -> Option<Seq<char>> {
    match answer {
        ModeAnswer::Panicked => Some(
            "Error: mode gate panicked for tool '"@ + tool_name + "'"@,
        ),
        _ => match mode_refusal(class, answer) {
            Some(reason) => Some(
                "Error: mode denied tool '"@ + tool_name + "' — "@ + reason,
            ),
            None => None,
        },
    }
}

/// Decides whether the mode keeps a tool from running, and what the model is
/// told.
pub fn mode_denial(tool_name: &str, class: ToolClass, answer: &ModeAnswer) -> (r: Option<String>)
    ensures
        optional_text(r) == mode_denial_text(tool_name@, class, *answer),
{
    let reason: String = match answer {
        ModeAnswer::NoMode => return None,
        ModeAnswer::Panicked => {
            let mut text: String = "Error: mode gate panicked for tool '".to_owned();
            text.append(tool_name);
            text.append("'");
            return Some(text);
        },
        ModeAnswer::Gated(ModeDecision::Allow) => return None,
        ModeAnswer::Gated(ModeDecision::Deny { reason }) => reason.clone(),
        ModeAnswer::Ungated { name, allows_mutating } => {
            if class == ToolClass::ReadOnly || *allows_mutating {
                return None;
            }
            let mut text: String = "mode '".to_owned();
            text.append(name.as_str());
            text.append("' denies mutating tools");
            text
        },
    };
    let mut text: String = "Error: mode denied tool '".to_owned();
    text.append(tool_name);
    text.append("' — ");
    text.append(reason.as_str());
    Some(text)
}

/// A mode that forbids mutating tools keeps every mutating tool from running
/// and no other, unless it decides on a tool by itself.
pub proof fn general_rule_denies_mutators(
    tool_name: Seq<char>,
    class: ToolClass,
    mode_name: String,
    allows_mutating: bool,
)
    ensures
        mode_denial_text(
            tool_name,
            class,
            ModeAnswer::Ungated { name: mode_name, allows_mutating },
        ) is Some <==> class == ToolClass::Mutating && !allows_mutating,
{
}

/// Why a mode change cannot be taken back.
#[derive(Clone, Copy, Debug, PartialEq, Eq, Structural)]
pub enum ModeError {
    NoPendingModeChange,
}

impl ModeError {
    /// The error as text.
    pub fn message(&self) -> (r: &'static str)
        ensures
            r@ == "no pending mode change"@,
    {
        "no pending mode change"
    }
}

/// A mode change that waits to be applied.
pub struct PendingMode<M> {
    pub mode: M,
    pub name: String,
    pub authority: ModeAuthority,
    /// Whether the request was reported.
    pub announced: bool,
}

/// The mode in force and the change that waits, if any.
pub struct ModeControl<M> {
    pub mode: M,
    pub name: String,
    pub pending: Option<PendingMode<M>>,
}

/// What a boundary does to a waiting change: an operator's is applied, an
/// agent's is reported first and applied at the next boundary.
pub enum BoundaryEffect {
    Nothing,
    Requested,
    Applied,
}

/// An agent's change is never applied before it was reported: until then it
/// can be taken back.
pub proof fn agent_changes_are_reported_first<M>(control: ModeControl<M>)
    requires
        control.pending is Some,
        control.pending->0.authority == ModeAuthority::Agent,
        !control.pending->0.announced,
    ensures
        control.effect() is Requested,
{
}

impl<M> ModeControl<M> {
    /// What the next boundary does.
    pub open spec fn effect(&self) -> BoundaryEffect {
        match self.pending {
            None => BoundaryEffect::Nothing,
            Some(pending) => if pending.authority == ModeAuthority::Operator
                || pending.announced {
                BoundaryEffect::Applied
            } else {
                BoundaryEffect::Requested
            },
        }
    }

    /// A mode in force and nothing waiting.
    pub fn new(mode: M, name: String) -> (r: ModeControl<M>)
        ensures
            r.mode == mode,
            r.name == name,
            r.pending is None,
    {
        ModeControl { mode, name, pending: None }
    }

    /// Asks for another mode. A change that waits gives way to it.
    pub fn set_mode(&mut self, mode: M, name: String, authority: ModeAuthority)
        ensures
            final(self).mode == old(self).mode,
            final(self).name == old(self).name,
            final(self).pending == Some(PendingMode { mode, name, authority, announced: false }),
    {
        self.pending = Some(PendingMode { mode, name, authority, announced: false });
    }

    /// Takes back the change that waits.
    pub fn cancel_pending_mode_change(&mut self) -> (r: Result<(), ModeError>)
        ensures
            final(self).mode == old(self).mode,
            final(self).name == old(self).name,
            final(self).pending is None,
            r == match old(self).pending {
                Some(_) => Ok::<(), ModeError>(()),
                None => Err::<(), ModeError>(ModeError::NoPendingModeChange),
            },
    {
        match self.pending {
            Some(_) => {
                self.pending = None;
                Ok(())
            },
            None => Err(ModeError::NoPendingModeChange),
        }
    }

    /// What the next boundary leaves.
    pub open spec fn passed(&self) -> ModeControl<M> {
        match self.effect() {
            BoundaryEffect::Nothing => *self,
            BoundaryEffect::Requested => ModeControl {
                mode: self.mode,
                name: self.name,
                pending: Some(PendingMode { announced: true, ..self.pending->0 }),
            },
            BoundaryEffect::Applied => ModeControl {
                mode: self.pending->0.mode,
                name: self.pending->0.name,
                pending: None,
            },
        }
    }

    /// What the next boundary reports.
    pub open spec fn reported(&self) -> Option<StreamEventView> {
        match self.effect() {
            BoundaryEffect::Nothing => None,
            BoundaryEffect::Requested => Some(
                StreamEventView::ModeChangeRequested {
                    from: self.name@,
                    to: self.pending->0.name@,
                    authority: self.pending->0.authority,
                },
            ),
            BoundaryEffect::Applied => Some(
                StreamEventView::ModeChanged {
                    from: self.name@,
                    to: self.pending->0.name@,
                    authority: self.pending->0.authority,
                },
            ),
        }
    }

    /// Passes a boundary of the agent loop, and says what to report.
    pub fn boundary(&mut self) -> (r: Option<StreamEvent>)
        ensures
            *final(self) == old(self).passed(),
            match r {
                Some(event) => old(self).reported() == Some(event@),
                None => old(self).reported() is None,
            },
    {
        let mut waiting: Option<PendingMode<M>> = None;
        std::mem::swap(&mut waiting, &mut self.pending);
        match waiting {
            None => None,
            Some(pending) => {
                let PendingMode { mode, name, authority, announced } = pending;
                if announced || authority == ModeAuthority::Operator {
                    let event: StreamEvent = StreamEvent::ModeChanged {
                        from: self.name.clone(),
                        to: name.clone(),
                        authority,
                    };
                    self.mode = mode;
                    self.name = name;
                    Some(event)
                } else {
                    let event: StreamEvent = StreamEvent::ModeChangeRequested {
                        from: self.name.clone(),
                        to: name.clone(),
                        authority,
                    };
                    self.pending = Some(PendingMode { mode, name, authority, announced: true });
                    Some(event)
                }
            },
        }
    }
}

/// An operator's change is in force from the next boundary on, which reports
/// it, with the mode that it replaces and who asked for it.
pub proof fn operator_changes_apply_at_once<M>(control: ModeControl<M>, pending: PendingMode<M>)
    requires
        control.pending == Some(pending),
        pending.authority == ModeAuthority::Operator,
    ensures
        control.passed().mode == pending.mode,
        control.passed().name == pending.name,
        control.passed().pending is None,
        control.reported() == Some(
            StreamEventView::ModeChanged {
                from: control.name@,
                to: pending.name@,
                authority: ModeAuthority::Operator,
            },
        ),
{
}

/// An agent's change is reported at the next boundary, which leaves the mode as
/// it is, and is in force from the boundary after that, which reports it too.
pub proof fn agent_changes_take_two_boundaries<M>(control: ModeControl<M>, pending: PendingMode<M>)
    requires
        control.pending == Some(pending),
        pending.authority == ModeAuthority::Agent,
        !pending.announced,
    ensures
        control.passed().mode == control.mode,
        control.passed().name == control.name,
        control.passed().pending is Some,
        control.reported() == Some(
            StreamEventView::ModeChangeRequested {
                from: control.name@,
                to: pending.name@,
                authority: ModeAuthority::Agent,
            },
        ),
        control.passed().passed().mode == pending.mode,
        control.passed().passed().name == pending.name,
        control.passed().passed().pending is None,
        control.passed().reported() == Some(
            StreamEventView::ModeChanged {
                from: control.name@,
                to: pending.name@,
                authority: ModeAuthority::Agent,
            },
        ),
{
}

/// Where nothing waits, a boundary changes nothing and reports nothing.
pub proof fn idle_boundaries_change_nothing<M>(control: ModeControl<M>)
    requires
        control.pending is None,
    ensures
        control.passed() == control,
        control.reported() is None,
{
}

} // verus!
