//! Continuation guards: predicates that keep an agent working or stop it.
use crate::message::{Message, MessageView};
use crate::text::views;
use std::sync::Arc;
use vstd::prelude::*;

verus! {

/// Identifies an installed guard.
#[derive(Clone, Copy, Debug, PartialEq, Eq, Hash, Structural)]
pub struct GuardId(u64);

impl GuardId {
    /// The number behind the identifier.
    pub closed spec fn number(self) -> u64 {
        self.0
    }
}

/// When a guard is asked.
#[derive(Clone, Copy, Debug, PartialEq, Eq, Structural)]
pub enum GuardTrigger {
    OnTurnEnd,
    OnSessionStop,
}

/// What a guard's predicate says.
#[derive(Clone, Debug, PartialEq, Eq)]
pub enum GuardDecision {
    Continue,
    Stop,
    Abort { reason: String },
}

/// What came of asking a predicate.
#[derive(Debug, PartialEq, Eq)]
pub enum PredicateOutcome {
    Decided(GuardDecision),
    Panicked,
}

/// What a guard declares as its way out.
#[derive(Clone, Debug, PartialEq, Eq)]
pub enum GuardEscape {
    OperatorCommand(String),
    MaxIterations,
    PredicateAbort,
}

/// What guards and matchers get to see of a run.
#[derive(Clone, Debug)]
pub struct AgentSnapshot {
    pub turn_count: usize,
    pub last_assistant_message: Option<Message>,
    pub recent_tool_calls: Vec<String>,
}

/// What an [`AgentSnapshot`] stands for.
#[verifier::ext_equal]
pub struct AgentSnapshotView {
    pub turn_count: usize,
    pub last_assistant_message: Option<MessageView>,
    pub recent_tool_calls: Seq<Seq<char>>,
}

impl View for AgentSnapshot {
    type V = AgentSnapshotView;

    open spec fn view(&self) -> AgentSnapshotView {
        AgentSnapshotView {
            turn_count: self.turn_count,
            last_assistant_message: match self.last_assistant_message {
                Some(message) => Some(message@),
                None => None,
            },
            recent_tool_calls: views(self.recent_tool_calls@),
        }
    }
}

/// The predicate of a guard. It may answer differently each time it is asked.
pub trait GuardPredicate: Send + Sync {
    /// Whether the predicate may be asked.
    open spec fn ready(&self, snapshot: &AgentSnapshot) -> bool {
        true
    }

    fn decide(&self, snapshot: &AgentSnapshot) -> GuardDecision
        requires
            self.ready(snapshot),
    ;
}

impl<F: Fn(&AgentSnapshot) -> GuardDecision + Send + Sync> GuardPredicate for F {
    open spec fn ready(&self, snapshot: &AgentSnapshot) -> bool {
        call_requires(*self, (snapshot,))
    }

    fn decide(&self, snapshot: &AgentSnapshot) -> (r: GuardDecision)
        ensures
            call_ensures(*self, (snapshot,), r),
    {
        self(snapshot)
    }
}

/// A guard as the caller describes it.
pub struct ContinuationGuard {
    pub name: String,
    pub trigger: GuardTrigger,
    pub predicate: Arc<dyn GuardPredicate>,
    pub continuation_prompt: String,
    pub max_iterations: Option<u32>,
    pub escape: GuardEscape,
}

/// Why a guard cannot be installed or removed.
#[derive(Clone, Copy, Debug, PartialEq, Eq, Structural)]
pub enum GuardError {
    /// The guard has no `max_iterations`.
    NoEscapeMechanism,
    /// There is no such guard.
    NotFound,
}

impl GuardError {
    /// The error as text.
    pub fn message(&self) -> (r: &'static str)
        ensures
            r@ == match *self {
                GuardError::NoEscapeMechanism => "guard must have max_iterations"@,
                GuardError::NotFound => "guard not found"@,
            },
    {
        match self {
            GuardError::NoEscapeMechanism => "guard must have max_iterations",
            GuardError::NotFound => "guard not found",
        }
    }
}

/// An installed guard, and how often it sent the agent on.
pub struct GuardEntry {
    pub id: GuardId,
    pub guard: ContinuationGuard,
    pub iterations: u32,
}

/// What the guards come to.
#[derive(Debug, PartialEq, Eq)]
pub enum GuardEval {
    /// Go on with this prompt.
    Continue { guard_name: String, prompt: String, iteration: u32 },
    /// End the run.
    Abort { guard_name: String, reason: String },
    /// No guard objects.
    Stop,
}

/// What a [`GuardEval`] stands for.
#[verifier::ext_equal]
pub enum GuardEvalView {
    Continue { guard_name: Seq<char>, prompt: Seq<char>, iteration: u32 },
    Abort { guard_name: Seq<char>, reason: Seq<char> },
    Stop,
}

impl View for GuardEval {
    type V = GuardEvalView;

    open spec fn view(&self) -> GuardEvalView {
        match *self {
            GuardEval::Continue { guard_name, prompt, iteration } => GuardEvalView::Continue {
                guard_name: guard_name@,
                prompt: prompt@,
                iteration,
            },
            GuardEval::Abort { guard_name, reason } => GuardEvalView::Abort {
                guard_name: guard_name@,
                reason: reason@,
            },
            GuardEval::Stop => GuardEvalView::Stop,
        }
    }
}

/// The installed guards, in the order of their installation.
pub struct GuardSet {
    next_id: u64,
    guards: Vec<GuardEntry>,
}

/// What a [`GuardSet`] stands for.
#[verifier::ext_equal]
pub struct GuardSetView {
    pub next_id: u64,
    pub guards: Seq<GuardEntry>,
}

impl View for GuardSet {
    type V = GuardSetView;

    closed spec fn view(&self) -> GuardSetView {
        GuardSetView { next_id: self.next_id, guards: self.guards@ }
    }
}

impl GuardSetView {
    /// Identifiers are distinct and older than the next one; each guard has a
    /// limit and is within it.
    pub open spec fn wf(self) -> bool {
        &&& forall|i: int|
            0 <= i < self.guards.len() ==> (#[trigger] self.guards[i]).id.number() < self.next_id
        &&& forall|i: int, j: int|
            0 <= i < j < self.guards.len() ==> (#[trigger] self.guards[i]).id != (
            #[trigger] self.guards[j]).id
        &&& forall|i: int|
            0 <= i < self.guards.len() ==> within_limit(#[trigger] self.guards[i])
    }
}

/// Whether a guard has a limit and has not gone past it.
pub open spec fn within_limit(entry: GuardEntry) -> bool {
    match entry.guard.max_iterations {
        Some(max) => entry.iterations <= max,
        None => false,
    }
}

/// Whether a guard may not send the agent on once more.
pub open spec fn exhausted(entry: GuardEntry) -> bool {
    match entry.guard.max_iterations {
        Some(max) => entry.iterations >= max,
        None => false,
    }
}

/// The position of the guard with the given identifier.
pub open spec fn guard_position(guards: Seq<GuardEntry>, id: GuardId) -> Option<int>
    decreases guards.len(),
{
    if guards.len() == 0 {
        None
    } else {
        match guard_position(guards.drop_last(), id) {
            Some(i) => Some(i),
            None => if guards.last().id == id {
                Some(guards.len() - 1)
            } else {
                None
            },
        }
    }
}

/// What the outcome of one predicate does: the guards that stay, and what the
/// guards come to, where this guard settles it. A guard that aborts, panics
/// or would go past its limit is removed.
pub open spec fn settled(guards: Seq<GuardEntry>, i: int, outcome: PredicateOutcome) -> (
    Seq<GuardEntry>,
    Option<GuardEvalView>,
) {
    let entry = guards[i];
    let name = entry.guard.name@;
    match outcome {
        PredicateOutcome::Panicked => (
            guards.remove(i),
            Some(GuardEvalView::Abort { guard_name: name, reason: "predicate panic"@ }),
        ),
        PredicateOutcome::Decided(GuardDecision::Stop) => (guards, None),
        PredicateOutcome::Decided(GuardDecision::Abort { reason }) => (
            guards.remove(i),
            Some(GuardEvalView::Abort { guard_name: name, reason: reason@ }),
        ),
        PredicateOutcome::Decided(GuardDecision::Continue) => if exhausted(entry) {
            (
                guards.remove(i),
                Some(
                    GuardEvalView::Abort { guard_name: name, reason: "max iterations reached"@ },
                ),
            )
        } else {
            let iteration = (entry.iterations + 1) as u32;
            (
                guards.update(i, GuardEntry { iterations: iteration, ..entry }),
                Some(
                    GuardEvalView::Continue {
                        guard_name: name,
                        prompt: entry.guard.continuation_prompt@,
                        iteration,
                    },
                ),
            )
        },
    }
}

/// What the guards from a position on come to, given the outcome of each
/// predicate: the first guard with the trigger that does not say `Stop`
/// settles it.
pub open spec fn evaluated(
    guards: Seq<GuardEntry>,
    trigger: GuardTrigger,
    outcomes: Seq<PredicateOutcome>,
    from: int,
) -> (Seq<GuardEntry>, GuardEvalView)
    decreases guards.len() - from,
{
    if from >= guards.len() {
        (guards, GuardEvalView::Stop)
    } else if guards[from].guard.trigger != trigger {
        evaluated(guards, trigger, outcomes, from + 1)
    } else {
        match settled(guards, from, outcomes[from]) {
            (left, Some(eval)) => (left, eval),
            (_, None) => evaluated(guards, trigger, outcomes, from + 1),
        }
    }
}

/// Whether the predicate at a position is asked: its guard has the trigger,
/// and every guard with the trigger before it says `Stop`.
pub open spec fn consulted(
    guards: Seq<GuardEntry>,
    trigger: GuardTrigger,
    outcomes: Seq<PredicateOutcome>,
    i: int,
) -> bool {
    &&& guards[i].guard.trigger == trigger
    &&& forall|k: int|
        0 <= k < i && guards[k].guard.trigger == trigger ==> #[trigger] outcomes[k]
            == PredicateOutcome::Decided(GuardDecision::Stop)
}

/// Whether the outcomes are answers of `ask` for every guard that is asked.
pub open spec fn answered_by<F: Fn(&ContinuationGuard, &AgentSnapshot) -> PredicateOutcome>(
    ask: F,
    guards: Seq<GuardEntry>,
    trigger: GuardTrigger,
    snapshot: &AgentSnapshot,
    outcomes: Seq<PredicateOutcome>,
) -> bool {
    &&& outcomes.len() == guards.len()
    &&& forall|i: int|
        0 <= i < guards.len() && consulted(guards, trigger, outcomes, i) ==> call_ensures(
            ask,
            (&guards[i].guard, snapshot),
            #[trigger] outcomes[i],
        )
}

/// Found positions hold the identifier; the position is the only one where
/// identifiers are distinct.
pub proof fn guard_position_holds(guards: Seq<GuardEntry>, id: GuardId)
    ensures
        match guard_position(guards, id) {
            Some(i) => 0 <= i < guards.len() && guards[i].id == id && forall|k: int|
                0 <= k < i ==> (#[trigger] guards[k]).id != id,
            None => forall|k: int| 0 <= k < guards.len() ==> (#[trigger] guards[k]).id != id,
        },
    decreases guards.len(),
{
    if guards.len() > 0 {
        let rest = guards.drop_last();
        guard_position_holds(rest, id);
        assert forall|k: int| 0 <= k < rest.len() implies #[trigger] guards[k] == rest[k] by {}
    }
}

impl GuardSet {
    #[verifier::type_invariant]
    closed spec fn inv(&self) -> bool {
        self@.wf()
    }

    /// No guards.
    pub fn new() -> (r: GuardSet)
        ensures
            r@ == (GuardSetView { next_id: 0, guards: Seq::empty() }),
            r@.wf(),
    {
        let r: GuardSet = GuardSet { next_id: 0, guards: Vec::new() };
        assert(r@.guards =~= Seq::empty());
        r
    }

    /// Whether there is an identifier left for one more guard.
    pub fn has_room(&self) -> (r: bool)
        ensures
            r == (self@.next_id < u64::MAX),
    {
        self.next_id < u64::MAX
    }

    /// Installs a guard behind the others. A guard without a limit is
    /// refused.
    pub fn install(&mut self, guard: ContinuationGuard) -> (r: Result<GuardId, GuardError>)
        requires
            old(self)@.next_id < u64::MAX,
        ensures
            final(self)@.wf(),
            match r {
                Ok(id) => guard.max_iterations is Some && id.number() == old(self)@.next_id
                    && final(self)@ == (GuardSetView {
                    next_id: (old(self)@.next_id + 1) as u64,
                    guards: old(self)@.guards.push(GuardEntry { id, guard, iterations: 0 }),
                }),
                Err(error) => guard.max_iterations is None && error
                    == GuardError::NoEscapeMechanism && final(self)@ == old(self)@,
            },
    {
        proof {
            use_type_invariant(&*self);
        }
        if guard.max_iterations.is_none() {
            return Err(GuardError::NoEscapeMechanism);
        }
        let id: GuardId = GuardId(self.next_id);
        self.next_id = self.next_id + 1;
        let mut guards: Vec<GuardEntry> = Vec::new();
        std::mem::swap(&mut guards, &mut self.guards);
        guards.push(GuardEntry { id, guard, iterations: 0 });
        self.guards = guards;
        Ok(id)
    }

    /// Removes a guard.
    pub fn remove(&mut self, id: GuardId) -> (r: Result<(), GuardError>)
        ensures
            final(self)@.wf(),
            match guard_position(old(self)@.guards, id) {
                Some(i) => r is Ok && final(self)@ == (GuardSetView {
                    guards: old(self)@.guards.remove(i),
                    ..old(self)@
                }),
                None => r == Err::<(), GuardError>(GuardError::NotFound) && final(self)@
                    == old(self)@,
            },
    {
        proof {
            use_type_invariant(&*self);
            guard_position_holds(self@.guards, id);
        }
        let mut i: usize = 0;
        while i < self.guards.len()
            invariant
                i <= self.guards.len(),
                *self == *old(self),
                old(self)@.wf(),
                forall|k: int| 0 <= k < i ==> (#[trigger] self@.guards[k]).id != id,
                match guard_position(self@.guards, id) {
                    Some(p) => 0 <= p < self@.guards.len() && self@.guards[p].id == id && forall|
                        k: int,
                    |
                        0 <= k < p ==> (#[trigger] self@.guards[k]).id != id,
                    None => forall|k: int|
                        0 <= k < self@.guards.len() ==> (#[trigger] self@.guards[k]).id != id,
                },
            decreases self.guards.len() - i,
        {
            if self.guards[i].id == id {
                assert(self@.guards[i as int].id == id);
                let mut guards: Vec<GuardEntry> = Vec::new();
                std::mem::swap(&mut guards, &mut self.guards);
                let _removed: GuardEntry = guards.remove(i);
                self.guards = guards;
                return Ok(());
            }
            i = i + 1;
        }
        Err(GuardError::NotFound)
    }

    /// Takes the outcome of the predicate at a position; `None` where the
    /// next guard is to be asked.
    pub fn settle(&mut self, index: usize, outcome: PredicateOutcome) -> (r: Option<GuardEval>)
        requires
            index < old(self)@.guards.len(),
        ensures
            final(self)@.wf(),
            final(self)@ == (GuardSetView {
                guards: settled(old(self)@.guards, index as int, outcome).0,
                ..old(self)@
            }),
            match r {
                Some(eval) => settled(old(self)@.guards, index as int, outcome).1 == Some(eval@),
                None => settled(old(self)@.guards, index as int, outcome).1 is None,
            },
    {
        proof {
            use_type_invariant(&*self);
        }
        let ghost before = self@.guards;
        assert(within_limit(before[index as int]));
        let mut guards: Vec<GuardEntry> = Vec::new();
        std::mem::swap(&mut guards, &mut self.guards);
        let eval: Option<GuardEval> = match outcome {
            PredicateOutcome::Panicked => {
                let entry: GuardEntry = guards.remove(index);
                Some(
                    GuardEval::Abort {
                        guard_name: entry.guard.name,
                        reason: "predicate panic".to_owned(),
                    },
                )
            },
            PredicateOutcome::Decided(GuardDecision::Stop) => None,
            PredicateOutcome::Decided(GuardDecision::Abort { reason }) => {
                let entry: GuardEntry = guards.remove(index);
                Some(GuardEval::Abort { guard_name: entry.guard.name, reason })
            },
            PredicateOutcome::Decided(GuardDecision::Continue) => {
                let spent: bool = match guards[index].guard.max_iterations {
                    Some(max) => guards[index].iterations >= max,
                    None => false,
                };
                if spent {
                    let entry: GuardEntry = guards.remove(index);
                    Some(
                        GuardEval::Abort {
                            guard_name: entry.guard.name,
                            reason: "max iterations reached".to_owned(),
                        },
                    )
                } else {
                    let iteration: u32 = guards[index].iterations + 1;
                    guards[index].iterations = iteration;
                    assert(guards@ =~= before.update(
                        index as int,
                        GuardEntry { iterations: iteration, ..before[index as int] },
                    ));
                    Some(
                        GuardEval::Continue {
                            guard_name: guards[index].guard.name.clone(),
                            prompt: guards[index].guard.continuation_prompt.clone(),
                            iteration,
                        },
                    )
                }
            },
        };
        self.guards = guards;
        eval
    }

    /// Asks the guards with a trigger, in order, until one settles it.
    /// `ask` runs a predicate and reports whether it panicked.
    pub fn evaluate<F: Fn(&ContinuationGuard, &AgentSnapshot) -> PredicateOutcome>(
        &mut self,
        trigger: GuardTrigger,
        snapshot: &AgentSnapshot,
        ask: F,
    ) -> (r: GuardEval)
        requires
            forall|guard: &ContinuationGuard| #[trigger] call_requires(ask, (guard, snapshot)),
        ensures
            final(self)@.wf(),
            exists|outcomes: Seq<PredicateOutcome>|
                {
                    &&& #[trigger] answered_by(
                        ask,
                        old(self)@.guards,
                        trigger,
                        snapshot,
                        outcomes,
                    )
                    &&& final(self)@ == (GuardSetView {
                        guards: evaluated(old(self)@.guards, trigger, outcomes, 0).0,
                        ..old(self)@
                    })
                    &&& r@ == evaluated(old(self)@.guards, trigger, outcomes, 0).1
                },
    {
        proof {
            use_type_invariant(&*self);
        }
        let ghost all = self@.guards;
        let ghost stop = PredicateOutcome::Decided(GuardDecision::Stop);
        let ghost mut outcomes: Seq<PredicateOutcome> = Seq::new(all.len(), |i: int| stop);
        let mut index: usize = 0;
        while index < self.guards.len()
            invariant
                self@ == old(self)@,
                self@.wf(),
                all == self@.guards,
                index <= all.len(),
                outcomes.len() == all.len(),
                stop == PredicateOutcome::Decided(GuardDecision::Stop),
                forall|guard: &ContinuationGuard| #[trigger] call_requires(ask, (guard, snapshot)),
                forall|i: int|
                    0 <= i < index && all[i].guard.trigger == trigger ==> call_ensures(
                        ask,
                        (&all[i].guard, snapshot),
                        #[trigger] outcomes[i],
                    ),
                forall|i: int| 0 <= i < all.len() ==> #[trigger] outcomes[i] == stop,
                evaluated(all, trigger, outcomes, 0) == evaluated(
                    all,
                    trigger,
                    outcomes,
                    index as int,
                ),
            decreases self.guards.len() - index,
        {
            if self.guards[index].guard.trigger != trigger {
                index = index + 1;
                continue ;
            }
            let outcome: PredicateOutcome = ask(&self.guards[index].guard, snapshot);
            let ghost told = outcomes.update(index as int, outcome);
            proof {
                assert(told.len() == all.len());
                evaluated_same_prefix(all, trigger, outcomes, told, 0, index as int);
            }
            let found: Option<GuardEval> = self.settle(index, outcome);
            match found {
                Some(eval) => {
                    proof {
                        assert forall|i: int|
                            0 <= i < all.len() && consulted(all, trigger, told, i) implies
                            call_ensures(ask, (&all[i].guard, snapshot), #[trigger] told[i]) by {
                            if i > index {
                                assert(told[index as int] == stop);
                                assert(settled(all, index as int, outcome).1 is None);
                            } else if i < index {
                                assert(told[i] == outcomes[i]);
                            }
                        }
                        assert(answered_by(ask, all, trigger, snapshot, told));
                    }
                    return eval;
                },
                None => {
                    proof {
                        assert(outcome == stop);
                        assert(told =~= outcomes);
                    }
                },
            }
            index = index + 1;
        }
        proof {
            assert(answered_by(ask, all, trigger, snapshot, outcomes));
        }
        GuardEval::Stop
    }
}

/// A guard never sends the agent on more often than its limit, and each time
/// it does is counted.
pub proof fn guards_stay_within_limits(
    guards: Seq<GuardEntry>,
    i: int,
    outcome: PredicateOutcome,
)
    requires
        0 <= i < guards.len(),
        within_limit(guards[i]),
    ensures
        match settled(guards, i, outcome).1 {
            Some(GuardEvalView::Continue { iteration, .. }) => iteration == guards[i].iterations + 1
                && iteration <= guards[i].guard.max_iterations->0,
            Some(GuardEvalView::Abort { .. }) => settled(guards, i, outcome).0.len()
                == guards.len() - 1,
            _ => settled(guards, i, outcome).0 == guards,
        },
{
}

proof fn evaluated_same_prefix(
    guards: Seq<GuardEntry>,
    trigger: GuardTrigger,
    a: Seq<PredicateOutcome>,
    b: Seq<PredicateOutcome>,
    from: int,
    upto: int,
)
    requires
        0 <= from <= upto < guards.len(),
        a.len() == guards.len(),
        b.len() == guards.len(),
        forall|i: int|
            0 <= i < guards.len() ==> #[trigger] a[i] == PredicateOutcome::Decided(
                GuardDecision::Stop,
            ),
        forall|i: int| 0 <= i < upto ==> #[trigger] b[i] == a[i],
    ensures
        evaluated(guards, trigger, a, from) == evaluated(guards, trigger, a, upto),
        evaluated(guards, trigger, b, from) == evaluated(guards, trigger, b, upto),
    decreases upto - from,
{
    if from < upto {
        assert(b[from] == a[from]);
        evaluated_same_prefix(guards, trigger, a, b, from + 1, upto);
    }
}

proof fn evaluated_from(
    guards: Seq<GuardEntry>,
    trigger: GuardTrigger,
    outcomes: Seq<PredicateOutcome>,
    from: int,
    upto: int,
)
    requires
        0 <= from <= upto <= guards.len(),
        forall|k: int|
            from <= k < upto && guards[k].guard.trigger == trigger ==> #[trigger] outcomes[k]
                == PredicateOutcome::Decided(GuardDecision::Stop),
    ensures
        evaluated(guards, trigger, outcomes, from) == evaluated(guards, trigger, outcomes, upto),
    decreases upto - from,
{
    if from < upto {
        assert(guards[from].guard.trigger == trigger ==> outcomes[from]
            == PredicateOutcome::Decided(GuardDecision::Stop));
        evaluated_from(guards, trigger, outcomes, from + 1, upto);
    }
}

/// The first guard of a trigger that objects settles it. One that sends the
/// agent on does so with its own prompt, and is counted; one that aborts,
/// panics or is at its limit ends the run and is gone. No other guard changes.
pub proof fn the_first_objection_settles(
    guards: Seq<GuardEntry>,
    trigger: GuardTrigger,
    outcomes: Seq<PredicateOutcome>,
    at: int,
    max: u32,
)
    requires
        0 <= at < guards.len(),
        guards[at].guard.trigger == trigger,
        guards[at].guard.max_iterations == Some(max),
        guards[at].iterations <= max,
        outcomes[at] != PredicateOutcome::Decided(GuardDecision::Stop),
        forall|k: int|
            0 <= k < at && guards[k].guard.trigger == trigger ==> #[trigger] outcomes[k]
                == PredicateOutcome::Decided(GuardDecision::Stop),
    ensures
        ({
            let (left, eval) = evaluated(guards, trigger, outcomes, 0);
            let guard = guards[at].guard;
            let gone = match outcomes[at] {
                PredicateOutcome::Panicked => Some("predicate panic"@),
                PredicateOutcome::Decided(GuardDecision::Abort { reason }) => Some(reason@),
                PredicateOutcome::Decided(GuardDecision::Continue) => if guards[at].iterations
                    == max {
                    Some("max iterations reached"@)
                } else {
                    None
                },
                PredicateOutcome::Decided(GuardDecision::Stop) => None,
            };
            match gone {
                Some(reason) => {
                    &&& eval == (GuardEvalView::Abort { guard_name: guard.name@, reason })
                    &&& left.len() == guards.len() - 1
                    &&& forall|k: int| 0 <= k < at ==> #[trigger] left[k] == guards[k]
                    &&& forall|k: int| at <= k < left.len() ==> #[trigger] left[k] == guards[k + 1]
                },
                None => {
                    &&& eval == (GuardEvalView::Continue {
                        guard_name: guard.name@,
                        prompt: guard.continuation_prompt@,
                        iteration: (guards[at].iterations + 1) as u32,
                    })
                    &&& left.len() == guards.len()
                    &&& left[at] == (GuardEntry {
                        iterations: (guards[at].iterations + 1) as u32,
                        ..guards[at]
                    })
                    &&& forall|k: int|
                        0 <= k < left.len() && k != at ==> #[trigger] left[k] == guards[k]
                },
            }
        }),
{
    evaluated_from(guards, trigger, outcomes, 0, at);
}

/// Where no guard of a trigger objects, the run may stop and every guard stays.
pub proof fn without_objection_the_run_may_stop(
    guards: Seq<GuardEntry>,
    trigger: GuardTrigger,
    outcomes: Seq<PredicateOutcome>,
)
    requires
        forall|k: int|
            0 <= k < guards.len() && guards[k].guard.trigger == trigger ==> #[trigger] outcomes[k]
                == PredicateOutcome::Decided(GuardDecision::Stop),
    ensures
        evaluated(guards, trigger, outcomes, 0) == (guards, GuardEvalView::Stop),
{
    evaluated_from(guards, trigger, outcomes, 0, guards.len() as int);
}

/// A guard is asked exactly where it has the trigger and every guard with the
/// trigger before it had no objection.
pub proof fn guards_are_asked_in_turn(
    guards: Seq<GuardEntry>,
    trigger: GuardTrigger,
    outcomes: Seq<PredicateOutcome>,
    i: int,
)
    requires
        0 <= i < guards.len(),
    ensures
        consulted(guards, trigger, outcomes, i) <==> guards[i].guard.trigger == trigger && !exists|
            k: int,
        |
            0 <= k < i && guards[k].guard.trigger == trigger && #[trigger] outcomes[k]
                != PredicateOutcome::Decided(GuardDecision::Stop),
{
}

} // verus!
