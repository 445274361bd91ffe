use std::sync::Arc;
use tkach::handle::Interrupted;
use tkach::user_input::{collected_in_time, may_ask_user};
use tkach::{
    AgentHandle, AgentMode, AgentSnapshot, AskUserError, BridgeError, Content, ContinuationGuard,
    DefaultMode, GuardDecision, GuardError, GuardEscape, GuardEval, GuardPredicate, GuardSet,
    GuardTrigger, InterruptError, InterruptOutcome, InterruptReason, InterruptTarget,
    ModeAuthority, ModeControl, ModeError, PlanMode, PolicyError, PolicyScope, PolicyTrigger,
    PolicyTriggerMetadata, PredicateOutcome, PromptPolicy, PromptPolicySet, ReportedPolicies,
    Shared, SteerCommand, SteerError, StreamEvent, ToolClass, ToolRunTracker, TurnId,
    UserInputResponse,
};

fn snapshot(turn_count: usize) -> AgentSnapshot {
    AgentSnapshot {
        turn_count,
        last_assistant_message: None,
        recent_tool_calls: Vec::new(),
    }
}

#[test]
fn turn_ids_hold_clock_and_counter() {
    let id = TurnId::new(1_700_000_000_123, 42);
    assert_eq!(id.as_str(), "turn_1700000000123_42");
    assert!(TurnId::new(0, 0).as_str().starts_with("turn_"));
    assert_ne!(TurnId::new(1, 23), TurnId::new(12, 3));
    assert_eq!(TurnId::new(1, 2), TurnId::from("turn_1_2".to_string()));
    assert_eq!(TurnId::from("any".to_string()).as_str(), "any");
    assert_eq!(String::from(TurnId::from("turn_x".to_string())), "turn_x");
}

fn active_handle() -> (AgentHandle<u32>, TurnId) {
    let mut handle = AgentHandle::new();
    let turn = TurnId::new(5, 6);
    handle.begin_turn(turn.clone());
    (handle, turn)
}

#[test]
fn queued_user_message_comes_back_with_the_active_turn() {
    let (handle, turn) = active_handle();
    let (id, command) = handle.queue_user_message("fact", Some(turn.clone())).unwrap();
    assert_eq!(id, turn);
    let SteerCommand::Append { content } = command;
    assert!(matches!(&content[0], Content::Text { text, .. } if text == "fact"));
    assert_eq!(AgentHandle::<u32>::queued(id, true).unwrap(), turn);
    assert_eq!(
        AgentHandle::<u32>::queued(turn, false).unwrap_err(),
        SteerError::ChannelClosed
    );
    assert!(handle.queue_user_message("owned".to_string(), None).is_ok());
}

#[test]
fn queue_rejects_non_user_content() {
    let (handle, turn) = active_handle();
    let err = handle
        .queue_user_message(
            vec![Content::ToolResult {
                tool_use_id: "t1".into(),
                content: "not user content".into(),
                is_error: false,
                cache_control: None,
            }],
            Some(turn),
        )
        .unwrap_err();
    assert_eq!(err, SteerError::InvalidContent);
    let err = handle.queue_user_message(Vec::<Content>::new(), None).unwrap_err();
    assert_eq!(err, SteerError::EmptyContent);
    assert_eq!(err.message(), "queued user message content is empty");
}

#[test]
fn queue_rejects_mismatched_turn_id() {
    let (handle, turn) = active_handle();
    let other = TurnId::from("turn_wrong".to_string());
    let err = handle.queue_user_message("wrong turn", Some(other.clone())).unwrap_err();
    assert_eq!(
        err.message(),
        "expected active turn turn_wrong, got turn_5_6"
    );
    assert_eq!(
        err,
        SteerError::ExpectedTurnMismatch { expected: other, actual: turn }
    );
    let idle: AgentHandle<u32> = AgentHandle::new();
    assert_eq!(
        idle.queue_user_message("x", None).unwrap_err(),
        SteerError::NoActiveTurn
    );
    assert!(idle.current_turn_id().is_none());
}

#[test]
fn interrupt_tool_cancels_only_that_tool() {
    let (mut handle, turn) = active_handle();
    handle.register("a", 1);
    handle.register("b", 2);
    handle.mark_done("b");
    let target = |id: &str| InterruptTarget::Tool { tool_call_id: id.into() };
    assert!(matches!(
        handle.interrupt(target("a")),
        Ok((InterruptOutcome::Cancelled, Interrupted::Tool(1)))
    ));
    assert!(matches!(
        handle.interrupt(target("b")),
        Ok((InterruptOutcome::AlreadyDone, Interrupted::Nothing))
    ));
    assert!(matches!(
        handle.interrupt(target("c")),
        Ok((InterruptOutcome::NotInFlight, Interrupted::Nothing))
    ));
    assert!(matches!(
        handle.interrupt(InterruptTarget::Turn {
            turn_id: turn,
            reason: InterruptReason::UserAbort
        }),
        Ok((InterruptOutcome::Cancelled, Interrupted::Run))
    ));
    match handle.interrupt(InterruptTarget::Turn {
        turn_id: TurnId::new(1, 1),
        reason: InterruptReason::Replaced,
    }) {
        Err(InterruptError::UnknownTurn(id)) => assert_eq!(id.as_str(), "turn_1_1"),
        _ => panic!("an unknown turn is refused"),
    }
    assert!(matches!(
        handle.interrupt(InterruptTarget::Session),
        Ok((InterruptOutcome::Cancelled, Interrupted::Run))
    ));
    handle.clear_active_turn();
    assert!(handle.current_turn_id().is_none());
}

#[test]
fn tracker_follows_a_call_through_again() {
    let mut tracker = ToolRunTracker::new();
    assert_eq!(tracker.interrupt("x"), (InterruptOutcome::NotInFlight, None));
    tracker.register("x", 7);
    assert_eq!(tracker.interrupt("x"), (InterruptOutcome::Cancelled, Some(&7)));
    tracker.mark_done("x");
    assert_eq!(tracker.interrupt("x"), (InterruptOutcome::AlreadyDone, None));
    tracker.register("x", 8);
    assert_eq!(tracker.interrupt("x"), (InterruptOutcome::Cancelled, Some(&8)));
}

fn guard(
    name: &str,
    max_iterations: Option<u32>,
    predicate: Arc<dyn GuardPredicate>,
) -> ContinuationGuard {
    ContinuationGuard {
        name: name.into(),
        trigger: GuardTrigger::OnTurnEnd,
        predicate,
        continuation_prompt: "go on".into(),
        max_iterations,
        escape: GuardEscape::MaxIterations,
    }
}

fn ask(guard: &ContinuationGuard, snapshot: &AgentSnapshot) -> PredicateOutcome {
    PredicateOutcome::Decided(guard.predicate.decide(snapshot))
}

#[test]
fn continuation_guard_rejects_unwired_operator_command_escape() {
    let mut set = GuardSet::new();
    let mut unbounded = guard("unbounded", None, Arc::new(|_: &AgentSnapshot| GuardDecision::Continue));
    unbounded.escape = GuardEscape::OperatorCommand("stop".into());
    assert_eq!(set.install(unbounded), Err(GuardError::NoEscapeMechanism));
}

#[test]
fn guards_continue_up_to_their_limit() {
    let mut set = GuardSet::new();
    let id = set
        .install(guard("loop", Some(2), Arc::new(|_: &AgentSnapshot| GuardDecision::Continue)))
        .unwrap();
    for iteration in 1..=2 {
        assert_eq!(
            set.evaluate(GuardTrigger::OnTurnEnd, &snapshot(1), ask),
            GuardEval::Continue {
                guard_name: "loop".into(),
                prompt: "go on".into(),
                iteration,
            }
        );
    }
    assert_eq!(
        set.evaluate(GuardTrigger::OnTurnEnd, &snapshot(1), ask),
        GuardEval::Abort {
            guard_name: "loop".into(),
            reason: "max iterations reached".into(),
        }
    );
    assert_eq!(set.evaluate(GuardTrigger::OnTurnEnd, &snapshot(1), ask), GuardEval::Stop);
    assert_eq!(set.remove(id), Err(GuardError::NotFound));
}

#[test]
fn guards_are_asked_in_order_and_by_trigger() {
    let mut set = GuardSet::new();
    set.install(guard("calm", Some(1), Arc::new(|_: &AgentSnapshot| GuardDecision::Stop)))
        .unwrap();
    let mut session = guard("session", Some(1), Arc::new(|_: &AgentSnapshot| GuardDecision::Continue));
    session.trigger = GuardTrigger::OnSessionStop;
    set.install(session).unwrap();
    let aborter = set
        .install(guard(
            "abort",
            Some(1),
            Arc::new(|s: &AgentSnapshot| {
                if s.turn_count > 3 {
                    GuardDecision::Abort { reason: "enough".into() }
                } else {
                    GuardDecision::Stop
                }
            }),
        ))
        .unwrap();
    assert_eq!(set.evaluate(GuardTrigger::OnTurnEnd, &snapshot(1), ask), GuardEval::Stop);
    assert_eq!(
        set.evaluate(GuardTrigger::OnTurnEnd, &snapshot(4), ask),
        GuardEval::Abort { guard_name: "abort".into(), reason: "enough".into() }
    );
    assert_eq!(set.remove(aborter), Err(GuardError::NotFound));
    assert!(matches!(
        set.evaluate(GuardTrigger::OnSessionStop, &snapshot(4), ask),
        GuardEval::Continue { .. }
    ));
}

#[test]
fn panicking_predicates_end_the_run_once() {
    let mut set = GuardSet::new();
    set.install(guard("bad", Some(1), Arc::new(|_: &AgentSnapshot| GuardDecision::Stop)))
        .unwrap();
    let panicked =
        |_: &ContinuationGuard, _: &AgentSnapshot| -> PredicateOutcome { PredicateOutcome::Panicked };
    assert_eq!(
        set.evaluate(GuardTrigger::OnTurnEnd, &snapshot(1), panicked),
        GuardEval::Abort { guard_name: "bad".into(), reason: "predicate panic".into() }
    );
    assert_eq!(set.evaluate(GuardTrigger::OnTurnEnd, &snapshot(1), ask), GuardEval::Stop);
}

fn policy(name: &str, precedence: u8, scope: PolicyScope) -> PromptPolicy {
    PromptPolicy {
        name: name.into(),
        scope,
        content: format!("{name} text"),
        precedence,
        trigger: PolicyTrigger::Always,
    }
}

#[test]
fn policies_are_refused_for_blank_parts_and_taken_precedence() {
    let mut set = PromptPolicySet::new();
    assert_eq!(
        set.install(policy(" \t", 1, PolicyScope::Persistent)),
        Err(PolicyError::EmptyName)
    );
    let mut blank = policy("a", 1, PolicyScope::Persistent);
    blank.content = "\n\u{a0}".into();
    assert_eq!(set.install(blank), Err(PolicyError::EmptyContent));
    let id = set.install(policy("a", 1, PolicyScope::Persistent)).unwrap();
    let err = set.install(policy("b", 1, PolicyScope::Persistent)).unwrap_err();
    assert_eq!(
        err.message(),
        "prompt policy precedence 1 is already used by policy a"
    );
    assert_eq!(set.remove(id), Ok(()));
    assert_eq!(set.remove(id), Err(PolicyError::NotFound));
    assert!(set.install(policy("b", 1, PolicyScope::Persistent)).is_ok());
}

#[test]
fn policies_list_and_apply_by_precedence() {
    let mut set = PromptPolicySet::new();
    let late = set.install(policy("late", 200, PolicyScope::EveryTurnUntilRemoved)).unwrap();
    let once = set.install(policy("once", 7, PolicyScope::NextTurn)).unwrap();
    let unmatched = set.install(policy("quiet", 3, PolicyScope::NextTurn)).unwrap();
    let names: Vec<String> = set.list().into_iter().map(|(_, m)| m.name).collect();
    assert_eq!(names, ["quiet", "once", "late"]);
    assert_eq!(set.list()[0].1.trigger, PolicyTriggerMetadata::Always);
    let applied = set.apply_matches(&vec![late, once]);
    let names: Vec<String> = applied.iter().map(|p| p.name.clone()).collect();
    assert_eq!(names, ["once", "late"]);
    let left: Vec<_> = set.list().into_iter().map(|(id, _)| id).collect();
    assert_eq!(left, [unmatched, late]);
}

#[test]
fn matchers_decide_and_a_panic_means_no() {
    let mut set = PromptPolicySet::new();
    let mut matched = policy("m", 1, PolicyScope::NextTurn);
    matched.trigger = PolicyTrigger::OnIntentMatch(Shared {
        value: Arc::new(|s: &AgentSnapshot| s.turn_count == 2),
    });
    set.install(matched).unwrap();
    set.install(policy("n", 2, PolicyScope::NextTurn)).unwrap();
    let candidates = set.candidates();
    let answer = match &candidates[0].trigger {
        PolicyTrigger::OnIntentMatch(shared) => shared.value.matches(&snapshot(2)),
        PolicyTrigger::Always => panic!("it has a matcher"),
    };
    assert!(candidates[0].matches(Some(answer)));
    assert!(!candidates[0].matches(Some(false)));
    assert!(!candidates[0].matches(None));
    assert!(candidates[1].matches(None));
}

#[test]
fn policies_are_reported_at_the_next_boundary() {
    let mut modes = ModeControl::new((), DefaultMode.name());
    let mut policies = ReportedPolicies::new();
    let once = policies.install(policy("once", 7, PolicyScope::NextTurn)).unwrap();
    let late = policies.install(policy("late", 200, PolicyScope::Persistent)).unwrap();
    assert!(policies.install(policy("taken", 7, PolicyScope::Persistent)).is_err());
    modes.set_mode((), PlanMode.name(), ModeAuthority::Operator);
    let events = policies.boundary(&mut modes);
    assert_eq!(events.len(), 3);
    assert!(matches!(&events[0], StreamEvent::PolicyInstalled { name } if name == "once"));
    assert!(matches!(&events[1], StreamEvent::PolicyInstalled { name } if name == "late"));
    assert!(matches!(&events[2], StreamEvent::ModeChanged { to, .. } if to == "plan"));
    assert!(policies.boundary(&mut modes).is_empty());
    assert_eq!(policies.apply_matches(&vec![late, once]).len(), 2);
    assert_eq!(policies.remove(once), Err(PolicyError::NotFound));
    assert_eq!(policies.remove(late), Ok(()));
    let events = policies.take_events();
    assert_eq!(events.len(), 3);
    assert!(matches!(
        &events[0],
        StreamEvent::PolicyApplied { name, precedence: 7 } if name == "once"
    ));
    assert!(matches!(
        &events[1],
        StreamEvent::PolicyApplied { name, precedence: 200 } if name == "late"
    ));
    assert!(matches!(&events[2], StreamEvent::PolicyRemoved { name } if name == "late"));
    assert!(policies.policy_set().list().is_empty());
}

#[test]
fn operator_mode_change_is_applied_at_the_boundary() {
    let mut control = ModeControl::new(1u8, DefaultMode.name());
    assert!(control.boundary().is_none());
    control.set_mode(2, PlanMode.name(), ModeAuthority::Operator);
    match control.boundary() {
        Some(StreamEvent::ModeChanged { from, to, authority }) => {
            assert_eq!((from.as_str(), to.as_str()), ("default", "plan"));
            assert_eq!(authority, ModeAuthority::Operator);
        }
        other => panic!("expected the change, got {other:?}"),
    }
    assert_eq!(control.mode, 2);
    assert_eq!(control.name, "plan");
}

#[test]
fn a_requested_change_can_be_taken_back() {
    let mut control = ModeControl::new((), DefaultMode.name());
    assert_eq!(
        control.cancel_pending_mode_change(),
        Err(ModeError::NoPendingModeChange)
    );
    control.set_mode((), PlanMode.name(), ModeAuthority::Agent);
    assert!(matches!(
        control.boundary(),
        Some(StreamEvent::ModeChangeRequested { .. })
    ));
    assert_eq!(control.cancel_pending_mode_change(), Ok(()));
    assert!(control.boundary().is_none());
    assert_eq!(control.name, "default");
    control.set_mode((), PlanMode.name(), ModeAuthority::Agent);
    control.boundary();
    assert!(matches!(control.boundary(), Some(StreamEvent::ModeChanged { .. })));
    assert_eq!(control.name, "plan");
}

struct Quiet;

impl AgentMode for Quiet {
    fn name(&self) -> String {
        "quiet".into()
    }
}

#[test]
fn modes_allow_everything_unless_they_say_otherwise() {
    assert!(Quiet.allows_mutating_tools());
    assert!(Quiet.tool_gate("x", ToolClass::Mutating).is_none());
    assert_eq!(Quiet.system_prompt_addendum(), "");
    assert!(!PlanMode.allows_mutating_tools());
    assert!(PlanMode.system_prompt_addendum().starts_with("You are in Plan mode."));
    assert_eq!(tkach::AcceptEditsMode.name(), "accept-edits");
}

#[test]
fn root_handle_can_ask_user_via_bridge() {
    assert_eq!(may_ask_user(0, true), Ok(()));
    assert_eq!(may_ask_user(1, true), Err(AskUserError::NotRootThread));
    assert_eq!(may_ask_user(0, false), Err(AskUserError::NoUserInputBridge));
    assert_eq!(
        collected_in_time(Some(Ok(UserInputResponse::Cancelled))),
        Ok(UserInputResponse::Cancelled)
    );
    assert_eq!(collected_in_time(None), Ok(UserInputResponse::TimedOut));
    let err = collected_in_time(Some(Err(BridgeError::Protocol("bad".into())))).unwrap_err();
    assert_eq!(err.message(), "bridge protocol error: bad");
}
