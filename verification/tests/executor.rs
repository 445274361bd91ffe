use std::sync::Arc;
use tkach::concurrency::limits_in_range;
use tkach::executor::{CallReply, CallStep, ToolExecutor, ToolRun};
use tkach::mode::{ask_mode, mode_denial};
use tkach::{
    AllowAll, AllowList, ApprovalAnswer, BatchStep, ConcurrencyConfig, Content, DefaultMode, Json,
    ModeAnswer, ModeDecision, PlanMode, RoutingClass, ToolCall, ToolClass, ToolConcurrency, ToolOutput, ToolPolicy,
    ToolRegistry, ToolSpec,
};

fn spec(name: &str, class: ToolClass, recursive: bool) -> ToolSpec {
    ToolSpec {
        name: name.into(),
        description: String::new(),
        input_schema: Json::Null,
        class,
        recursive,
    }
}

fn registry() -> Arc<ToolRegistry> {
    Arc::new(ToolRegistry::new(vec![
        spec("read", ToolClass::ReadOnly, false),
        spec("write", ToolClass::Mutating, false),
        spec("fast", ToolClass::Mutating, false),
        spec("agent", ToolClass::Mutating, true),
    ]))
}

fn executor() -> ToolExecutor<AllowAll> {
    ToolExecutor::with_concurrency(
        registry(),
        Arc::new(AllowAll),
        ConcurrencyConfig::new(
            4,
            2,
            vec![
                ("fast".into(), ToolConcurrency::on().max(3)),
                ("read".into(), ToolConcurrency::off().max(5)),
            ],
        ),
    )
}

fn call(id: &str, name: &str) -> ToolCall {
    ToolCall {
        id: id.into(),
        name: name.into(),
        input: Json::Null,
    }
}

fn text_of(content: &Content) -> (String, bool) {
    match content {
        Content::ToolResult { content, is_error, .. } => (content.clone(), *is_error),
        other => panic!("expected a result, got {other:?}"),
    }
}

fn result(step: CallStep) -> (String, bool) {
    match step {
        CallStep::Finish(content) => text_of(&content),
        other => panic!("expected the end, got {other:?}"),
    }
}

fn admitted(executor: &ToolExecutor<AllowAll>, name: &str) -> (ToolRun, CallStep) {
    let (mut run, mut step) = executor.dispatch_one(&call("c1", name));
    while matches!(step, CallStep::AwaitOwnPool | CallStep::AwaitClassPool) {
        step = run.step(CallReply::Admission { granted: true });
    }
    (run, step)
}

#[test]
fn later_registrations_override_earlier_ones() {
    let registry = ToolRegistry::new(vec![
        spec("a", ToolClass::ReadOnly, false),
        spec("b", ToolClass::ReadOnly, false),
        spec("a", ToolClass::Mutating, false),
    ]);
    assert_eq!(registry.len(), 2);
    assert!(!registry.is_empty());
    assert_eq!(registry.get("a").unwrap().class, ToolClass::Mutating);
    assert!(registry.get("c").is_none());
    assert_eq!(registry.iter().len(), 2);
    assert!(ToolRegistry::new(vec![]).is_empty());
}

#[test]
fn calls_are_routed_by_class_promotion_and_recursion() {
    let executor = executor();
    assert_eq!(executor.routing_class("read"), RoutingClass::ReadOnly);
    assert_eq!(executor.routing_class("write"), RoutingClass::SerialMut);
    assert_eq!(executor.routing_class("fast"), RoutingClass::ConcurrentMut);
    assert_eq!(executor.routing_class("agent"), RoutingClass::ConcurrentMut);
    assert_eq!(executor.routing_class("ghost"), RoutingClass::ShortCircuit);
    let narrow = ToolExecutor::new(registry(), Arc::new(AllowList::new(vec!["read".into()])));
    assert_eq!(narrow.routing_class("write"), RoutingClass::ShortCircuit);
}

#[test]
fn tool_failures_are_results() {
    let (mut run, step) = admitted(&executor(), "write");
    assert!(matches!(step, CallStep::ConsultMode));
    let step = run.step(CallReply::Mode(ModeAnswer::NoMode));
    assert!(matches!(step, CallStep::AskPolicy));
    let step = run.step(CallReply::Policy { allowed: true });
    assert!(matches!(step, CallStep::AskApproval));
    run.step(CallReply::Approval(ApprovalAnswer::Allow));
    let step = run.step(CallReply::Ran(Err("disk full".into())));
    assert_eq!(result(step), ("Error: disk full".into(), true));
}

#[test]
fn a_policy_that_changed_its_mind_denies_after_admission() {
    let (mut run, _) = admitted(&executor(), "write");
    run.step(CallReply::Mode(ModeAnswer::NoMode));
    let step = run.step(CallReply::Policy { allowed: false });
    assert_eq!(
        result(step),
        ("Error: tool 'write' is not allowed by policy".into(), true)
    );
}

#[test]
fn own_pool_comes_before_the_class_pool() {
    let executor = executor();
    let (mut run, step) = executor.dispatch_one(&call("c1", "fast"));
    assert!(matches!(step, CallStep::AwaitOwnPool));
    let step = run.step(CallReply::Admission { granted: true });
    assert!(matches!(step, CallStep::AwaitClassPool));
    let (_, step) = executor.dispatch_one(&call("c1", "write"));
    assert!(matches!(step, CallStep::AwaitClassPool));
}

#[test]
fn modes_deny_before_approval() {
    let plan = || ModeAnswer::Ungated {
        name: "plan".into(),
        allows_mutating: false,
    };
    let (mut run, _) = admitted(&executor(), "write");
    assert_eq!(
        result(run.step(CallReply::Mode(plan()))),
        (
            "Error: mode denied tool 'write' — mode 'plan' denies mutating tools".into(),
            true
        )
    );
    let (mut run, _) = admitted(&executor(), "read");
    assert!(matches!(run.step(CallReply::Mode(plan())), CallStep::AskPolicy));
    let (mut run, _) = admitted(&executor(), "read");
    assert_eq!(
        result(run.step(CallReply::Mode(ModeAnswer::Panicked))),
        ("Error: mode gate panicked for tool 'read'".into(), true)
    );
    let (mut run, _) = admitted(&executor(), "read");
    assert_eq!(
        result(run.step(CallReply::Mode(ModeAnswer::Gated(ModeDecision::Deny {
            reason: "not now".into()
        })))),
        ("Error: mode denied tool 'read' — not now".into(), true)
    );
    let (mut run, _) = admitted(&executor(), "write");
    assert!(matches!(
        run.step(CallReply::Mode(ModeAnswer::Gated(ModeDecision::Allow))),
        CallStep::AskPolicy
    ));
}

fn runs(names: &[&str]) -> Vec<(usize, usize)> {
    let executor = executor();
    let calls: Vec<ToolCall> = names.iter().map(|n| call(n, n)).collect();
    let mut batch = executor.execute_batch(calls, false);
    let mut out = Vec::new();
    loop {
        match batch.next(false) {
            BatchStep::Run { from, to } => {
                out.push((from, to));
                if to - from > 0 {
                    assert_eq!(batch.next(false), BatchStep::Wait);
                }
                for index in (from..to).rev() {
                    let id = batch.call(index).id.clone();
                    batch.record(index, Content::tool_result(&id, "ok", false));
                }
            }
            BatchStep::Done => return out,
            BatchStep::Wait => panic!("all results are in"),
        }
    }
}

#[test]
fn cancelled_batch_is_answered_at_once() {
    let executor = executor();
    let mut batch = executor.execute_batch(vec![call("a", "write"), call("b", "ghost")], true);
    assert_eq!(batch.next(true), BatchStep::Done);
    assert_eq!(batch.into_results().unwrap().len(), 2);
    let unfinished = executor.execute_batch(vec![call("a", "write")], false);
    assert!(unfinished.into_results().is_none());
}

#[test]
fn defaults_are_twenty_reads_ten_mutators_one_serial() {
    let config = ConcurrencyConfig::default();
    assert_eq!(config.read().limit(), 20);
    assert_eq!(config.concurrent_mut().limit(), 10);
    assert_eq!(config.serial_mut().limit(), 1);
    assert_eq!(config.read().to_semaphore().available_permits(), 20);
    assert_eq!(config.concurrent_mut().to_semaphore().available_permits(), 10);
    assert_eq!(config.serial_mut().to_semaphore().available_permits(), 1);
    assert!(config.tool_pool("read").is_none());
    assert!(!config.is_promoted("read"));
}

#[test]
fn last_setting_for_a_tool_counts() {
    let config = ConcurrencyConfig::new(
        1,
        1,
        vec![
            ("a".into(), ToolConcurrency::on().max(2)),
            ("b".into(), ToolConcurrency::on()),
            ("a".into(), ToolConcurrency::off()),
            ("b".into(), ToolConcurrency::on().max(7)),
        ],
    );
    assert!(!config.is_promoted("a"));
    assert!(config.tool_pool("a").is_none());
    assert!(config.is_promoted("b"));
    assert_eq!(config.tool_pool("b").unwrap().limit(), 7);
    assert_eq!(config.tool_pool("b").unwrap().to_semaphore().available_permits(), 7);
    assert!(ToolConcurrency::on().is_enabled());
    assert!(!ToolConcurrency::off().is_enabled());
    assert_eq!(ToolConcurrency::on().max(3).per_tool_cap(), Some(3));
    assert_eq!(ToolConcurrency::default(), ToolConcurrency::off());
}

#[test]
fn forks_share_what_serializes_and_renew_the_rest() {
    let parent = executor();
    let child = parent.fork_for_subagent();
    assert_eq!(child.registry().len(), parent.registry().len());
    assert!(child.policy_for_fork().is_allowed("anything"));
    for class in [RoutingClass::ReadOnly, RoutingClass::SerialMut] {
        let a = parent.class_pool(class).unwrap().to_semaphore();
        let b = child.class_pool(class).unwrap().to_semaphore();
        assert!(Arc::ptr_eq(&a, &b), "shared pools stay shared");
    }
    let a = parent.class_pool(RoutingClass::ConcurrentMut).unwrap();
    let b = child.class_pool(RoutingClass::ConcurrentMut).unwrap();
    assert!(!Arc::ptr_eq(&a.to_semaphore(), &b.to_semaphore()));
    assert_eq!(a.limit(), b.limit());
    let a = parent.own_pool("fast").unwrap();
    let b = child.own_pool("fast").unwrap();
    assert!(!Arc::ptr_eq(&a.to_semaphore(), &b.to_semaphore()));
    assert_eq!(b.limit(), 3);
    assert_eq!(child.routing_class("fast"), RoutingClass::ConcurrentMut);
    assert!(parent.class_pool(RoutingClass::ShortCircuit).is_none());
}

#[test]
fn permits_held_above_are_free_below() {
    let settings = vec![("fast".to_string(), ToolConcurrency::on().max(1))];
    let root = ConcurrencyConfig::new(1, 1, settings);
    let child = root.fork();
    let grandchild = child.fork();
    let concurrent = root.concurrent_mut().to_semaphore();
    let own = root.tool_pool("fast").unwrap().to_semaphore();
    let read = root.read().to_semaphore();
    let _concurrent = concurrent.try_acquire().unwrap();
    let _own = own.try_acquire().unwrap();
    let _read = read.try_acquire().unwrap();
    for below in [&child, &grandchild] {
        assert_eq!(below.concurrent_mut().to_semaphore().available_permits(), 1);
        assert_eq!(below.tool_pool("fast").unwrap().to_semaphore().available_permits(), 1);
        assert_eq!(below.serial_mut().to_semaphore().available_permits(), 1);
        assert_eq!(below.read().to_semaphore().available_permits(), 0);
    }
    assert_eq!(root.serial_mut().to_semaphore().available_permits(), 1);
}

#[test]
fn an_overridden_limit_may_be_out_of_range() {
    let settings = vec![
        ("fast".to_string(), ToolConcurrency::on().max(usize::MAX)),
        ("fast".to_string(), ToolConcurrency::on().max(2)),
    ];
    assert!(limits_in_range(&settings));
    let config = ConcurrencyConfig::new(1, 1, settings);
    assert_eq!(config.tool_pool("fast").unwrap().limit(), 2);
    let settings = vec![
        ("fast".to_string(), ToolConcurrency::on().max(2)),
        ("fast".to_string(), ToolConcurrency::on().max(usize::MAX)),
    ];
    assert!(!limits_in_range(&settings));
}

#[test]
fn modes_are_asked_for_what_decides() {
    let write = ask_mode(&PlanMode, "write", ToolClass::Mutating);
    assert_eq!(
        write,
        ModeAnswer::Ungated { name: "plan".into(), allows_mutating: false }
    );
    assert!(mode_denial("write", ToolClass::Mutating, &write).is_some());
    let read = ask_mode(&PlanMode, "read", ToolClass::ReadOnly);
    assert!(mode_denial("read", ToolClass::ReadOnly, &read).is_none());
    let write = ask_mode(&DefaultMode, "write", ToolClass::Mutating);
    assert!(mode_denial("write", ToolClass::Mutating, &write).is_none());
}

#[test]
fn runs_end_where_the_class_changes() {
    assert_eq!(
        runs(&["read", "read", "write", "write", "read", "fast", "agent", "ghost", "ghost"]),
        [(0, 2), (2, 3), (3, 4), (4, 5), (5, 7), (7, 9)]
    );
    assert_eq!(runs(&[]), []);
}

#[test]
fn results_keep_the_place_of_their_calls() {
    let executor = executor();
    let mut batch = executor.execute_batch(
        vec![call("a", "read"), call("b", "read"), call("c", "read")],
        false,
    );
    assert_eq!(batch.next(false), BatchStep::Run { from: 0, to: 3 });
    for (index, id) in [(2, "c"), (0, "a"), (1, "b")] {
        batch.record(index, Content::tool_result(id, id, false));
    }
    assert_eq!(batch.next(false), BatchStep::Done);
    let texts: Vec<String> = batch
        .into_results()
        .unwrap()
        .iter()
        .map(|c| text_of(c).0)
        .collect();
    assert_eq!(texts, ["a", "b", "c"]);
}

#[test]
fn a_batch_cancelled_midway_answers_the_rest() {
    let executor = executor();
    let mut batch = executor.execute_batch(
        vec![call("a", "write"), call("b", "write"), call("c", "read")],
        false,
    );
    assert_eq!(batch.next(false), BatchStep::Run { from: 0, to: 1 });
    assert_eq!(batch.routing(0), RoutingClass::SerialMut);
    batch.record(0, Content::tool_result("a", "done", false));
    assert_eq!(batch.next(true), BatchStep::Done);
    let results = batch.into_results().unwrap();
    assert_eq!(text_of(&results[0]), ("done".into(), false));
    for (content, id) in results[1..].iter().zip(["b", "c"]) {
        assert_eq!(text_of(content), ("Error: cancelled before execution".into(), true));
        assert!(matches!(content, Content::ToolResult { tool_use_id, .. } if tool_use_id == id));
    }
}

fn named(id: &str, name: &str, input: &str) -> ToolCall {
    ToolCall {
        id: id.into(),
        name: name.into(),
        input: Json::parse(input).unwrap(),
    }
}

fn executor_of(tools: Vec<ToolSpec>) -> ToolExecutor<AllowAll> {
    ToolExecutor::new(Arc::new(ToolRegistry::new(tools)), Arc::new(AllowAll))
}

/// Runs one call; the tool says what its input holds under `msg`, or its name.
fn run_one<P: ToolPolicy + ?Sized>(
    executor: &ToolExecutor<P>,
    call: &ToolCall,
    approval: ApprovalAnswer,
    ran: &mut Vec<String>,
) -> (String, bool) {
    let (mut run, mut step) = executor.execute_one(call);
    let mut approval = Some(approval);
    loop {
        let reply = match step {
            CallStep::Finish(content) => return text_of(&content),
            CallStep::AskApproval => CallReply::Approval(approval.take().unwrap()),
            CallStep::RunTool => {
                ran.push(call.name.clone());
                let input = call.input.to_value();
                CallReply::Ran(Ok(ToolOutput::text(input["msg"].as_str().unwrap_or(&call.name))))
            }
            other => panic!("a call outside of a batch does not wait: {other:?}"),
        };
        step = run.step(reply);
    }
}

/// Runs a batch; within a run the last call finishes first.
fn run_batch(
    executor: &ToolExecutor<AllowAll>,
    calls: Vec<ToolCall>,
    cancelled: bool,
    ran: &mut Vec<String>,
) -> Vec<(String, bool)> {
    let mut batch = executor.execute_batch(calls, cancelled);
    loop {
        match batch.next(cancelled) {
            BatchStep::Run { from, to } => {
                for index in (from..to).rev() {
                    let call = batch.call(index).clone();
                    ran.push(call.name.clone());
                    batch.record(index, Content::tool_result(&call.id, &call.name, false));
                }
            }
            BatchStep::Wait => panic!("every call of the run has its result"),
            BatchStep::Done => break,
        }
    }
    batch.into_results().unwrap().iter().map(text_of).collect()
}

#[test]
fn allow_all_runs_tool() {
    let executor = executor_of(vec![spec("echo", ToolClass::ReadOnly, false)]);
    let mut ran = Vec::new();
    let (content, is_error) = run_one(
        &executor,
        &named("id", "echo", "{\"msg\":\"hi\"}"),
        ApprovalAnswer::Allow,
        &mut ran,
    );
    assert!(!is_error);
    assert_eq!(content, "hi");
}

#[test]
fn missing_tool_returns_error_result() {
    let executor = executor_of(vec![]);
    let (content, is_error) =
        run_one(&executor, &named("id", "ghost", "{}"), ApprovalAnswer::Allow, &mut Vec::new());
    assert!(is_error);
    assert!(content.contains("not found"));
    assert_eq!(content, "Error: tool 'ghost' not found");
}

struct DenyNamed(&'static str);

impl ToolPolicy for DenyNamed {
    fn is_allowed(&self, name: &str) -> bool {
        name != self.0
    }
}

#[test]
fn policy_denial_returns_error_result() {
    let registry = Arc::new(ToolRegistry::new(vec![spec("echo", ToolClass::ReadOnly, false)]));
    let executor = ToolExecutor::new(registry, Arc::new(DenyNamed("echo")));
    let mut ran = Vec::new();
    let (content, is_error) = run_one(
        &executor,
        &named("id", "echo", "{\"msg\":\"hi\"}"),
        ApprovalAnswer::Allow,
        &mut ran,
    );
    assert!(is_error);
    assert!(content.contains("not allowed"));
    assert!(ran.is_empty());
}

#[test]
fn batch_preserves_order_despite_parallel_ro() {
    let executor = executor_of(vec![
        spec("a", ToolClass::ReadOnly, false),
        spec("b", ToolClass::ReadOnly, false),
    ]);
    let calls = vec![
        named("1", "a", "{\"delay_ms\":50}"),
        named("2", "b", "{\"delay_ms\":0}"),
    ];
    let mut ran = Vec::new();
    let results = run_batch(&executor, calls, false, &mut ran);
    assert_eq!(ran, ["b", "a"], "the second call finishes first");
    assert_eq!(results, [("a".to_string(), false), ("b".to_string(), false)]);
}

#[test]
fn batch_partitions_ro_and_mut_runs() {
    let executor = executor_of(vec![
        spec("a", ToolClass::ReadOnly, false),
        spec("b", ToolClass::ReadOnly, false),
        spec("m", ToolClass::Mutating, false),
        spec("c", ToolClass::ReadOnly, false),
    ]);
    let calls = vec![
        named("1", "a", "{\"delay_ms\":10}"),
        named("2", "b", "{\"delay_ms\":10}"),
        named("3", "m", "{}"),
        named("4", "c", "{\"delay_ms\":10}"),
    ];
    let results = run_batch(&executor, calls, false, &mut Vec::new());
    let texts: Vec<&str> = results.iter().map(|(text, _)| text.as_str()).collect();
    assert_eq!(texts, ["a", "b", "m", "c"]);
}

#[test]
fn batch_stops_dispatching_after_cancel() {
    let executor = executor_of(vec![
        spec("m1", ToolClass::Mutating, false),
        spec("m2", ToolClass::Mutating, false),
    ]);
    let mut ran = Vec::new();
    let results = run_batch(
        &executor,
        vec![named("1", "m1", "{}"), named("2", "m2", "{}")],
        true,
        &mut ran,
    );
    assert_eq!(results.len(), 2, "result count must match input count");
    for (content, is_error) in &results {
        assert!(*is_error, "cancelled-before-execution should be is_error");
        assert!(content.contains("cancelled before execution"), "got: {content}");
    }
    assert!(ran.is_empty(), "no tool runs after cancel");
}

#[test]
fn approval_deny_emits_error_tool_result_and_skips_execution() {
    let executor = executor_of(vec![spec("observe", ToolClass::Mutating, false)]);
    let mut ran = Vec::new();
    let (content, is_error) = run_one(
        &executor,
        &named("id", "observe", "{}"),
        ApprovalAnswer::Deny("blocked by user".into()),
        &mut ran,
    );
    assert!(is_error, "denied call should yield is_error: true");
    assert!(content.contains("approval denied"), "got: {content}");
    assert!(content.contains("blocked by user"), "got: {content}");
    assert!(ran.is_empty(), "tool must NOT have executed after approval denial");
}

#[test]
fn approval_cancel_during_approve_short_circuits() {
    let executor = executor_of(vec![spec("echo", ToolClass::ReadOnly, false)]);
    let mut ran = Vec::new();
    let (content, is_error) = run_one(
        &executor,
        &named("id", "echo", "{\"msg\":\"x\"}"),
        ApprovalAnswer::Cancelled,
        &mut ran,
    );
    assert!(is_error, "cancel during approval should yield is_error");
    assert!(content.contains("cancelled"), "got: {content}");
    assert!(ran.is_empty());
}

#[test]
fn cancel_during_permit_acquire_short_circuits() {
    let registry = Arc::new(ToolRegistry::new(vec![spec("slow", ToolClass::Mutating, false)]));
    let executor = ToolExecutor::with_concurrency(
        registry,
        Arc::new(AllowAll),
        ConcurrencyConfig::new(
            20,
            10,
            vec![("slow".to_string(), ToolConcurrency::on().max(1))],
        ),
    );
    let calls = vec![named("1", "slow", "{}"), named("2", "slow", "{}")];
    let mut batch = executor.execute_batch(calls, false);
    assert_eq!(batch.next(false), BatchStep::Run { from: 0, to: 2 });
    let mut held = Vec::new();
    let mut executed = 0;
    for index in 0..2 {
        let call = batch.call(index).clone();
        let routing = batch.routing(index);
        let (mut run, mut step) = executor.dispatch_one(&call);
        let content = loop {
            let reply = match step {
                CallStep::AwaitOwnPool | CallStep::AwaitClassPool => {
                    let pool = if matches!(step, CallStep::AwaitOwnPool) {
                        executor.own_pool(&call.name)
                    } else {
                        executor.class_pool(routing)
                    };
                    // A wait that finds no permit is cancelled.
                    match pool.unwrap().to_semaphore().try_acquire_owned() {
                        Ok(permit) => {
                            held.push(permit);
                            CallReply::Admission { granted: true }
                        }
                        Err(_) => CallReply::Admission { granted: false },
                    }
                }
                CallStep::ConsultMode => CallReply::Mode(ModeAnswer::NoMode),
                CallStep::AskPolicy => CallReply::Policy { allowed: true },
                CallStep::AskApproval => CallReply::Approval(ApprovalAnswer::Allow),
                CallStep::RunTool => {
                    executed += 1;
                    CallReply::Ran(Ok(ToolOutput::text("slow")))
                }
                CallStep::Finish(content) => break content,
            };
            step = run.step(reply);
        };
        batch.record(index, content);
    }
    assert_eq!(batch.next(true), BatchStep::Done);
    let results = batch.into_results().unwrap();
    assert_eq!(results.len(), 2);
    let (content, is_error) = text_of(&results[1]);
    assert!(is_error, "second call must be is_error after cancel");
    assert!(content.contains("cancelled before execution"), "got: {content}");
    assert_eq!(executed, 1, "only the first call should have run");
}

#[test]
fn denied_tools_are_not_looked_up() {
    let executor = ToolExecutor::new(registry(), Arc::new(AllowList::new(vec!["read".into()])));
    let (_, step) = executor.dispatch_one(&call("c1", "ghost"));
    assert_eq!(
        result(step),
        ("Error: tool 'ghost' is not allowed by policy".into(), true)
    );
}

#[test]
fn clones_of_limits_share_their_pools() {
    let config = ConcurrencyConfig::new(2, 2, vec![("a".into(), ToolConcurrency::on().max(1))]);
    let copy = config.clone();
    assert!(Arc::ptr_eq(&config.read().to_semaphore(), &copy.read().to_semaphore()));
    assert!(Arc::ptr_eq(
        &config.tool_pool("a").unwrap().to_semaphore(),
        &copy.tool_pool("a").unwrap().to_semaphore()
    ));
}

#[test]
fn fork_for_subagent_with_none_none_matches_fork_for_subagent_shape() {
    let registry = Arc::new(ToolRegistry::new(vec![]));
    let policy: Arc<dyn ToolPolicy> = Arc::new(AllowAll);
    let exec = ToolExecutor::new(registry.clone(), policy.clone());
    let a = exec.fork_for_subagent();
    let b = exec.fork_for_subagent_with(exec.policy_for_fork());
    assert!(Arc::ptr_eq(a.registry(), b.registry()));
    assert!(Arc::ptr_eq(a.registry(), &registry));
    assert!(Arc::ptr_eq(&a.policy_for_fork(), &b.policy_for_fork()));
}
