use std::sync::Arc;
use tkach::executor::{ToolExecutor, ToolRun};
use tkach::handle::Interrupted;
use tkach::mode::ask_mode;
use tkach::prompt_policy::AppliedPromptPolicy;
use tkach::{
    Agent, AgentBuilder, AgentError, AgentHandle, AgentMode, AgentResult, AgentRun, AgentSnapshot,
    AllowAll, AllowList, ApprovalAnswer, BatchStep, BuildError, CacheControl, CallReply, CallStep,
    Content, ContinuationGuard, DefaultMode, GuardDecision, GuardEscape, GuardEval, GuardPredicate,
    GuardSet, GuardTrigger, InterruptOutcome, InterruptTarget, Json, Message, ModeAuthority,
    ModeControl, PlanMode, PolicyScope, PolicyTrigger, PredicateOutcome, PromptPolicy,
    PromptPolicySet, ProviderError, Pull, Request, Response, Role, RunAction, RunReply,
    ScopedPolicy, SteerCommand, StopReason, StreamEvent, SubAgent, ThinkingConfig, ThinkingEffort,
    ThinkingMetadata, ThinkingProvider, ToolCall, ToolClass, ToolOutput, ToolPolicy, ToolSpec,
    TurnId, Usage,
};

fn json(text: &str) -> Json {
    Json::parse(text).expect("valid JSON")
}

fn tool(name: &str, class: ToolClass) -> ToolSpec {
    ToolSpec {
        name: name.into(),
        description: format!("{name} tool"),
        input_schema: json("{\"type\":\"object\"}"),
        class,
        recursive: false,
    }
}

fn defaults() -> Vec<ToolSpec> {
    vec![
        tool("read", ToolClass::ReadOnly),
        tool("write", ToolClass::Mutating),
        tool("edit", ToolClass::Mutating),
        tool("glob", ToolClass::ReadOnly),
        tool("grep", ToolClass::ReadOnly),
        tool("bash", ToolClass::Mutating),
        tool("web_fetch", ToolClass::ReadOnly),
    ]
}

fn prompt(text: &str) -> Vec<Message> {
    vec![Message::user_text(text)]
}

fn call(id: &str, name: &str) -> Content {
    Content::ToolUse {
        id: id.into(),
        name: name.into(),
        input: json("{}"),
    }
}

fn bash(id: &str, command: &str) -> Content {
    Content::ToolUse {
        id: id.into(),
        name: "bash".into(),
        input: json(&format!("{{\"command\":\"{command}\"}}")),
    }
}

fn answer(content: Vec<Content>, stop_reason: StopReason) -> Result<Response, ProviderError> {
    Ok(Response {
        content,
        stop_reason,
        usage: Usage::default(),
    })
}

fn text_answer(text: &str) -> Result<Response, ProviderError> {
    answer(vec![Content::text(text)], StopReason::EndTurn)
}

/// What a driver has at hand besides the agent.
struct World<'a> {
    provider: Box<dyn FnMut(&Request) -> Result<Response, ProviderError> + 'a>,
    tool: Box<dyn FnMut(&ToolCall) -> Result<ToolOutput, String> + 'a>,
    cancelled: Box<dyn FnMut() -> bool + 'a>,
    queued: Vec<SteerCommand>,
    policies: Vec<AppliedPromptPolicy>,
    guards: Box<dyn FnMut(&tkach::AgentSnapshot) -> GuardEval + 'a>,
    consumer_leaves_after: Option<usize>,
    modes: Modes,
    handle: AgentHandle<Token>,
    during_tools: Box<dyn FnMut(&mut Steering) + 'a>,
    consumer: Box<dyn FnMut(&StreamEvent, &mut Modes) + 'a>,
    heard: usize,
    emitted: Vec<StreamEvent>,
    traced: Vec<StreamEvent>,
}

type Modes = ModeControl<Arc<dyn AgentMode>>;

type Token = std::rc::Rc<std::cell::Cell<bool>>;

/// What a caller can reach while a tool runs.
struct Steering<'a> {
    modes: &'a mut Modes,
    handle: &'a AgentHandle<Token>,
    queued: &'a mut Vec<SteerCommand>,
}

fn set_mode<M: AgentMode + 'static>(modes: &mut Modes, mode: M, authority: ModeAuthority) {
    let name = mode.name();
    modes.set_mode(Arc::new(mode), name, authority);
}

impl<'a> World<'a> {
    fn new(provider: impl FnMut(&Request) -> Result<Response, ProviderError> + 'a) -> Self {
        World {
            provider: Box::new(provider),
            tool: Box::new(|call| Ok(ToolOutput::text(&format!("ran {}", call.name)))),
            cancelled: Box::new(|| false),
            queued: Vec::new(),
            policies: Vec::new(),
            guards: Box::new(|_| GuardEval::Stop),
            consumer_leaves_after: None,
            modes: ModeControl::new(Arc::new(DefaultMode), DefaultMode.name()),
            handle: AgentHandle::new(),
            during_tools: Box::new(|_| {}),
            consumer: Box::new(|_, _| {}),
            heard: 0,
            emitted: Vec::new(),
            traced: Vec::new(),
        }
    }
}

impl World<'_> {
    /// The consumer hears what was sent while the driver waits.
    fn wait(&mut self) {
        while self.heard < self.emitted.len() {
            let event = self.emitted[self.heard].clone();
            self.heard += 1;
            (self.consumer)(&event, &mut self.modes);
        }
    }
}

fn finish_call(
    world: &mut World,
    run: &mut ToolRun,
    mut step: CallStep,
    call: &ToolCall,
    class: ToolClass,
) -> Content {
    loop {
        let reply = match step {
            CallStep::AwaitOwnPool | CallStep::AwaitClassPool => {
                CallReply::Admission { granted: true }
            }
            CallStep::ConsultMode => {
                CallReply::Mode(ask_mode(&*world.modes.mode, &call.name, class))
            }
            CallStep::AskPolicy => CallReply::Policy { allowed: true },
            CallStep::AskApproval => CallReply::Approval(ApprovalAnswer::Allow),
            CallStep::RunTool => {
                let token = Token::default();
                world.handle.register(&call.id, token.clone());
                (world.during_tools)(&mut Steering {
                    modes: &mut world.modes,
                    handle: &world.handle,
                    queued: &mut world.queued,
                });
                let outcome = if token.get() {
                    Err("cancelled".to_string())
                } else {
                    (world.tool)(call)
                };
                world.handle.mark_done(&call.id);
                CallReply::Ran(outcome)
            }
            CallStep::Finish(content) => return content,
        };
        assert!(run.expects(&reply));
        step = run.step(reply);
    }
}

fn run_batch<P: ToolPolicy + ?Sized>(
    executor: &ToolExecutor<P>,
    calls: Vec<ToolCall>,
    world: &mut World,
) -> Vec<Content> {
    let mut batch = executor.execute_batch(calls, false);
    loop {
        match batch.next(false) {
            BatchStep::Wait => panic!("every call of the run has its result"),
            BatchStep::Done => return batch.into_results().expect("complete"),
            BatchStep::Run { from, to } => {
                for index in from..to {
                    let call = batch.call(index).clone();
                    let (mut run, step) = executor.dispatch_one(&call);
                    let class = executor.class_of(&call.name);
                    let content = finish_call(world, &mut run, step, &call, class);
                    batch.record(index, content);
                }
            }
        }
    }
}

fn events_of(response: Response) -> Vec<Result<StreamEvent, ProviderError>> {
    let mut events = Vec::new();
    for block in response.content {
        match block {
            Content::Text { text, .. } => events.push(Ok(StreamEvent::ContentDelta(text))),
            Content::Thinking { text, provider, metadata } => {
                if !text.is_empty() {
                    events.push(Ok(StreamEvent::ThinkingDelta { text: text.clone() }));
                }
                events.push(Ok(StreamEvent::ThinkingBlock { text, provider, metadata }));
            }
            Content::ToolUse { id, name, input } => {
                events.push(Ok(StreamEvent::ToolUse { id, name, input }))
            }
            Content::ToolResult { .. } => panic!("no answer holds a result"),
        }
    }
    events.push(Ok(StreamEvent::Usage(response.usage)));
    events.push(Ok(StreamEvent::MessageDelta {
        stop_reason: response.stop_reason,
    }));
    events.push(Ok(StreamEvent::Done));
    events
}

fn drive<P: ToolPolicy + ?Sized>(
    agent: &Agent<P>,
    streaming: bool,
    messages: Vec<Message>,
    world: &mut World,
) -> Result<AgentResult, AgentError> {
    let registry = Arc::clone(agent.executor().registry());
    let (mut run, mut action) = AgentRun::start(agent.run_settings(streaming), registry, messages);
    let mut events: std::vec::IntoIter<Result<StreamEvent, ProviderError>> = Vec::new().into_iter();
    let mut turns = 0u64;
    loop {
        world.handle.follow(&action);
        if action.passes_boundary() {
            let changed = world.modes.boundary();
            world.emitted.extend(changed);
        }
        let reply = match action {
            RunAction::BeginTurn => {
                turns += 1;
                let turn_id = TurnId::new(7, turns);
                world.handle.begin_turn(turn_id.clone());
                RunReply::TurnBegun(turn_id)
            }
            RunAction::Emit(event) => {
                let delivered = world
                    .consumer_leaves_after
                    .map_or(true, |limit| world.emitted.len() < limit);
                if delivered {
                    world.emitted.push(event);
                }
                RunReply::Sent { delivered }
            }
            RunAction::CheckCancelled => RunReply::CancelChecked {
                cancelled: (world.cancelled)(),
            },
            RunAction::GatherPolicies => {
                RunReply::Policies(std::mem::take(&mut world.policies))
            }
            RunAction::Complete(request) => {
                world.wait();
                RunReply::Answered((world.provider)(&request))
            }
            RunAction::Open(request) => match (world.provider)(&request) {
                Ok(response) => {
                    world.wait();
                    events = events_of(response).into_iter();
                    RunReply::Opened(Ok(()))
                }
                Err(error) => RunReply::Opened(Err(error)),
            },
            RunAction::Pull => RunReply::Pulled(match events.next() {
                Some(item) => Pull::Item(item),
                None => Pull::Closed,
            }),
            RunAction::Trace(event) => {
                world.traced.push(event);
                RunReply::Traced
            }
            RunAction::RunTools(calls) => {
                world.wait();
                let results = run_batch(agent.executor(), calls, world);
                RunReply::ToolsDone { results, queued: std::mem::take(&mut world.queued) }
            }
            RunAction::AskGuards(snapshot) => RunReply::Guarded {
                eval: (world.guards)(&snapshot),
                queued: std::mem::take(&mut world.queued),
            },
            RunAction::Finish(result) => {
                world.wait();
                return result;
            }
        };
        assert!(run.expects(&reply));
        action = run.step(reply);
    }
}

fn agent_with(tools: Vec<ToolSpec>) -> Agent<AllowAll> {
    Agent::builder().model("test").tools(tools).build().unwrap()
}

#[test]
fn single_turn_text_response() {
    let agent = agent_with(vec![]);
    let mut world = World::new(|_| text_answer("Hello, world!"));
    let result = drive(&agent, false, prompt("Hi"), &mut world).unwrap();
    assert_eq!(result.text, "Hello, world!");
    assert_eq!(result.new_messages.len(), 1);
    assert_eq!(result.stop_reason, StopReason::EndTurn);
}

#[test]
fn tool_call_then_text_response() {
    let agent = agent_with(defaults());
    let mut n = 0;
    let mut world = World::new(move |_| {
        n += 1;
        if n == 1 {
            answer(vec![bash("t1", "echo hello")], StopReason::ToolUse)
        } else {
            text_answer("The command output: hello")
        }
    });
    let result = drive(&agent, false, prompt("run echo hello"), &mut world).unwrap();
    assert_eq!(result.text, "The command output: hello");
    assert_eq!(result.new_messages.len(), 3);
    assert_eq!(result.new_messages[0].role, Role::Assistant);
    assert_eq!(result.new_messages[1].role, Role::User);
    assert!(matches!(
        &result.new_messages[1].content[0],
        Content::ToolResult { tool_use_id, content, is_error: false, .. }
            if tool_use_id == "t1" && content == "ran bash"
    ));
}

#[test]
fn multiple_tool_calls_single_response() {
    let agent = agent_with(defaults());
    let mut n = 0;
    let mut world = World::new(move |_| {
        n += 1;
        if n == 1 {
            answer(vec![bash("t1", "echo first"), bash("t2", "echo second")], StopReason::ToolUse)
        } else {
            text_answer("Both commands ran successfully")
        }
    });
    let result = drive(&agent, false, prompt("run two commands"), &mut world).unwrap();
    assert_eq!(result.text, "Both commands ran successfully");
    assert_eq!(result.new_messages[1].content.len(), 2);
}

#[test]
fn max_turns_exceeded() {
    let agent = Agent::builder()
        .model("test")
        .tools(defaults())
        .max_turns(3)
        .build()
        .unwrap();
    let mut world = World::new(|_| answer(vec![bash("t1", "echo loop")], StopReason::ToolUse));
    let err = drive(&agent, false, prompt("loop forever"), &mut world).unwrap_err();
    let AgentError::MaxTurnsReached { turns, partial } = &err else {
        panic!("expected MaxTurnsReached, got {err:?}");
    };
    assert_eq!(*turns, 3);
    assert_eq!(partial.new_messages.len(), 6);
    assert_eq!(partial.stop_reason, StopReason::ToolUse);
}

#[test]
fn no_turns_at_all_ends_at_once() {
    let agent = Agent::builder().model("test").max_turns(0).build().unwrap();
    let mut world = World::new(|_| panic!("never asked"));
    let err = drive(&agent, false, prompt("hi"), &mut world).unwrap_err();
    assert!(matches!(&err, AgentError::MaxTurnsReached { turns: 0, .. }));
    assert_eq!(err.partial().stop_reason, StopReason::EndTurn);
}

#[test]
fn cancel_before_run_returns_cancelled_immediately() {
    let agent = agent_with(vec![]);
    let mut world = World::new(|_| panic!("never asked"));
    world.cancelled = Box::new(|| true);
    let err = drive(&agent, false, prompt("hi"), &mut world).unwrap_err();
    let AgentError::Cancelled { partial } = &err else {
        panic!("expected Cancelled, got {err:?}");
    };
    assert_eq!(partial.new_messages.len(), 0);
    assert_eq!(partial.stop_reason, StopReason::Cancelled);
}

#[test]
fn cancel_while_the_provider_works_starts_no_tool() {
    let agent = agent_with(defaults());
    let mut checks = 0;
    let mut world = World::new(|_| answer(vec![call("t1", "bash")], StopReason::ToolUse));
    world.cancelled = Box::new(move || {
        checks += 1;
        checks == 2
    });
    world.tool = Box::new(|_| panic!("no tool runs"));
    let err = drive(&agent, false, prompt("hi"), &mut world).unwrap_err();
    assert!(matches!(&err, AgentError::Cancelled { partial } if partial.new_messages.len() == 1));
}

#[test]
fn tool_not_found_returns_error_result() {
    let agent = agent_with(vec![]);
    let mut n = 0;
    let mut world = World::new(move |req| {
        n += 1;
        if n == 1 {
            answer(vec![call("t1", "nonexistent_tool")], StopReason::ToolUse)
        } else {
            let has_error = req.messages.last().unwrap().content.iter().any(|c| match c {
                Content::ToolResult { is_error, content, .. } => {
                    assert_eq!(content, "Error: tool 'nonexistent_tool' not found");
                    *is_error
                }
                _ => false,
            });
            assert!(has_error, "LLM should receive tool error");
            text_answer("Tool not found, sorry.")
        }
    });
    let result = drive(&agent, false, prompt("use a fake tool"), &mut world).unwrap();
    assert_eq!(result.text, "Tool not found, sorry.");
}

fn usage(input_tokens: u32, output_tokens: u32) -> Usage {
    Usage {
        input_tokens,
        output_tokens,
        cache_creation_input_tokens: 0,
        cache_read_input_tokens: 0,
    }
}

#[test]
fn usage_accumulates_across_turns() {
    let agent = agent_with(defaults());
    let mut n = 0;
    let mut world = World::new(move |_| {
        n += 1;
        if n == 1 {
            Ok(Response {
                content: vec![bash("t1", "echo hi")],
                stop_reason: StopReason::ToolUse,
                usage: usage(100, 50),
            })
        } else {
            Ok(Response {
                content: vec![Content::text("done")],
                stop_reason: StopReason::EndTurn,
                usage: usage(200, 30),
            })
        }
    });
    let result = drive(&agent, false, prompt("test"), &mut world).unwrap();
    assert_eq!(result.usage.input_tokens, 300);
    assert_eq!(result.usage.output_tokens, 80);
}

#[test]
fn usage_counts_never_wrap() {
    let mut total = usage(u32::MAX, 1);
    total.add(&usage(1, 2));
    assert_eq!(total, usage(u32::MAX, 3));
    total.merge_max(&usage(5, 9));
    assert_eq!(total, usage(u32::MAX, 9));
}

#[test]
fn multi_turn_tool_chain() {
    let agent = agent_with(defaults());
    let file = std::cell::RefCell::new("hello world".to_string());
    let ran = std::cell::RefCell::new(Vec::new());
    let mut n = 0;
    let mut world = World::new(move |_| {
        n += 1;
        match n {
            1 => answer(
                vec![Content::ToolUse {
                    id: "t1".into(),
                    name: "read".into(),
                    input: json("{\"file_path\":\"test.txt\"}"),
                }],
                StopReason::ToolUse,
            ),
            2 => answer(
                vec![Content::ToolUse {
                    id: "t2".into(),
                    name: "edit".into(),
                    input: json(
                        "{\"file_path\":\"test.txt\",\"old_string\":\"hello world\",\"new_string\":\"hello agent\"}",
                    ),
                }],
                StopReason::ToolUse,
            ),
            _ => text_answer("File updated successfully"),
        }
    });
    world.tool = Box::new(|call| {
        ran.borrow_mut().push(call.name.clone());
        let input = call.input.to_value();
        if call.name == "edit" {
            let edited = file.borrow().replace(
                input["old_string"].as_str().unwrap(),
                input["new_string"].as_str().unwrap(),
            );
            *file.borrow_mut() = edited;
        }
        Ok(ToolOutput::text(&file.borrow()))
    });
    let result = drive(&agent, false, prompt("update the file"), &mut world).unwrap();
    assert_eq!(result.text, "File updated successfully");
    assert_eq!(*file.borrow(), "hello agent");
    assert_eq!(*ran.borrow(), ["read", "edit"]);
    assert_eq!(result.new_messages.len(), 5);
}

#[test]
fn no_tools_text_only() {
    let agent = agent_with(vec![]);
    let mut world = World::new(|_| text_answer("I have no tools but I can chat!"));
    let result = drive(&agent, false, prompt("hello"), &mut world).unwrap();
    assert_eq!(result.text, "I have no tools but I can chat!");
}

#[test]
fn end_turn_stops_even_with_tool_use_content() {
    let agent = agent_with(defaults());
    let mut world = World::new(|_| {
        answer(
            vec![Content::text("Let me think..."), bash("t1", "echo orphan")],
            StopReason::EndTurn,
        )
    });
    world.tool = Box::new(|_| panic!("no tool runs"));
    let result = drive(&agent, false, prompt("test"), &mut world).unwrap();
    assert_eq!(result.text, "Let me think...");
    assert_eq!(result.new_messages.len(), 1);
}

#[test]
fn provider_error_returns_partial() {
    let agent = agent_with(defaults());
    let mut n = 0;
    let mut world = World::new(move |_| {
        n += 1;
        if n == 1 {
            Ok(Response {
                content: vec![bash("t1", "echo hi")],
                stop_reason: StopReason::ToolUse,
                usage: usage(10, 5),
            })
        } else {
            Err(ProviderError::Overloaded {
                retry_after_ms: Some(2_000),
            })
        }
    });
    let err = drive(&agent, false, prompt("test"), &mut world).unwrap_err();
    let AgentError::Provider { source, partial } = &err else {
        panic!("expected Provider error, got {err:?}");
    };
    assert!(source.is_retryable());
    assert_eq!(partial.new_messages.len(), 2);
    assert_eq!(partial.usage.input_tokens, 10);
    assert_eq!(partial.stop_reason, StopReason::ToolUse);
}

#[test]
fn history_is_what_the_caller_gave_and_what_is_new() {
    let agent = agent_with(defaults());
    let seen = std::cell::RefCell::new(Vec::new());
    let mut n = 0;
    let mut world = World::new(|req| {
        seen.borrow_mut().push(req.messages.len());
        n += 1;
        if n < 3 {
            answer(vec![call("t", "read")], StopReason::ToolUse)
        } else {
            text_answer("end")
        }
    });
    let result = drive(
        &agent,
        false,
        vec![Message::user_text("a"), Message::user_text("b")],
        &mut world,
    )
    .unwrap();
    assert_eq!(*seen.borrow(), [2, 4, 6]);
    assert_eq!(result.new_messages.len(), 5);
}

fn public_events(events: &[StreamEvent]) -> Vec<&'static str> {
    events
        .iter()
        .map(|event| match event {
            StreamEvent::TurnStarted { .. } => "TurnStarted",
            StreamEvent::ContentDelta(_) => "ContentDelta",
            StreamEvent::ThinkingDelta { .. } => "ThinkingDelta",
            StreamEvent::ThinkingBlock { .. } => "ThinkingBlock",
            StreamEvent::ToolUse { .. } => "ToolUse",
            StreamEvent::ToolCallPending { .. } => "ToolCallPending",
            StreamEvent::MessageDelta { .. } => "MessageDelta",
            StreamEvent::Usage(_) => "Usage",
            StreamEvent::Done => "Done",
            StreamEvent::ContinuationInjected { .. } => "ContinuationInjected",
            StreamEvent::GuardAborted { .. } => "GuardAborted",
            _ => "other",
        })
        .collect()
}

#[test]
fn streams_announce_the_turn_and_forward_the_text() {
    let agent = agent_with(vec![]);
    let mut world = World::new(|_| text_answer("Hello, world!"));
    let result = drive(&agent, true, prompt("hi"), &mut world).unwrap();
    assert_eq!(public_events(&world.emitted), ["TurnStarted", "ContentDelta"]);
    assert!(matches!(
        &world.emitted[0],
        StreamEvent::TurnStarted { turn_id } if turn_id.as_str() == "turn_7_1"
    ));
    assert_eq!(public_events(&world.traced), ["Usage", "MessageDelta", "Done"]);
    assert_eq!(result.text, "Hello, world!");
    assert_eq!(result.stop_reason, StopReason::EndTurn);
    assert_eq!(result.new_messages.len(), 1);
}

#[test]
fn stream_thinking_response_forwards_live_and_preserves_history() {
    let agent = agent_with(vec![]);
    let mut world = World::new(|_| {
        answer(
            vec![
                Content::thinking(
                    "I should inspect the repo first.",
                    ThinkingProvider::OpenAIResponses,
                    ThinkingMetadata::openai_responses(
                        Some("rs_1".into()),
                        None,
                        0,
                        Some("enc".into()),
                    ),
                ),
                Content::text("Done."),
            ],
            StopReason::EndTurn,
        )
    });
    let result = drive(&agent, true, prompt("hi"), &mut world).unwrap();
    assert_eq!(
        public_events(&world.emitted),
        ["TurnStarted", "ThinkingDelta", "ThinkingBlock", "ContentDelta"]
    );
    assert_eq!(result.text, "Done.");
    let content = &result.new_messages[0].content;
    assert_eq!(content.len(), 2);
    assert!(matches!(
        &content[0],
        Content::Thinking {
            text,
            metadata: ThinkingMetadata::OpenAIResponses {
                item_id: Some(item_id),
                output_index: None,
                summary_index: 0,
                encrypted_content: Some(encrypted),
            },
            ..
        } if text == "I should inspect the repo first." && item_id == "rs_1" && encrypted == "enc"
    ));
    assert!(matches!(&content[1], Content::Text { text, .. } if text == "Done."));
}

#[test]
fn stream_redacted_thinking_preserves_metadata_without_visible_text() {
    let agent = agent_with(vec![]);
    let mut world = World::new(|_| {
        answer(
            vec![
                Content::thinking(
                    "",
                    ThinkingProvider::Anthropic,
                    ThinkingMetadata::anthropic_redacted("opaque-redacted-payload"),
                ),
                Content::text("Done."),
            ],
            StopReason::EndTurn,
        )
    });
    let result = drive(&agent, true, prompt("hi"), &mut world).unwrap();
    assert!(!public_events(&world.emitted).contains(&"ThinkingDelta"));
    assert!(matches!(
        &result.new_messages[0].content[0],
        Content::Thinking {
            text,
            provider: ThinkingProvider::Anthropic,
            metadata: ThinkingMetadata::AnthropicRedacted { data },
        } if text.is_empty() && data == "opaque-redacted-payload"
    ));
}

#[test]
fn stream_tool_call_then_text_response_executes_tool_inline() {
    let agent = agent_with(defaults());
    let mut n = 0;
    let mut world = World::new(move |_| {
        n += 1;
        if n == 1 {
            answer(vec![bash("t1", "echo hi")], StopReason::ToolUse)
        } else {
            text_answer("done")
        }
    });
    let result = drive(&agent, true, prompt("run echo"), &mut world).unwrap();
    assert_eq!(
        public_events(&world.emitted),
        ["TurnStarted", "ToolUse", "ToolCallPending", "TurnStarted", "ContentDelta"]
    );
    assert_eq!(result.new_messages.len(), 3);
    assert_eq!(result.text, "done");
}

#[test]
fn stream_emits_tool_call_pending_before_executing_tool() {
    let agent = agent_with(defaults());
    let ran = std::cell::Cell::new(0);
    let mut n = 0;
    let mut world = World::new(move |_| {
        n += 1;
        if n == 1 {
            answer(
                vec![Content::ToolUse {
                    id: "t1".into(),
                    name: "bash".into(),
                    input: json("{\"command\":\"echo hi\"}"),
                }],
                StopReason::ToolUse,
            )
        } else {
            text_answer("done")
        }
    });
    world.tool = Box::new(|call| {
        ran.set(ran.get() + 1);
        assert_eq!(call.name, "bash");
        assert_eq!(call.input.to_value()["command"], "echo hi");
        Ok(ToolOutput::text("hi"))
    });
    let result = drive(&agent, true, prompt("run echo"), &mut world).unwrap();
    let sequence = public_events(&world.emitted);
    let tu_pos = sequence.iter().position(|x| *x == "ToolUse").expect("ToolUse");
    let pending_pos =
        sequence.iter().position(|x| *x == "ToolCallPending").expect("ToolCallPending");
    assert!(
        tu_pos < pending_pos,
        "ToolUse must come before ToolCallPending; got: {sequence:?}"
    );
    let pending_class = world.emitted.iter().find_map(|event| match event {
        StreamEvent::ToolCallPending { name, class, .. } => {
            assert_eq!(name, "bash");
            Some(*class)
        }
        _ => None,
    });
    assert_eq!(
        pending_class,
        Some(ToolClass::Mutating),
        "bash is Mutating; class should be threaded through"
    );
    assert_eq!(ran.get(), 1, "the tool runs to the end");
    assert!(matches!(
        &result.new_messages[1].content[0],
        Content::ToolResult { tool_use_id, content, is_error: false, .. }
            if tool_use_id == "t1" && content == "hi"
    ));
    assert_eq!(result.text, "done");
}

#[test]
fn unknown_tools_are_told_as_mutating() {
    let agent = agent_with(defaults());
    let mut n = 0;
    let mut world = World::new(move |_| {
        n += 1;
        if n == 1 {
            answer(vec![call("t1", "read"), call("t2", "ghost")], StopReason::ToolUse)
        } else {
            text_answer("done")
        }
    });
    drive(&agent, true, prompt("go"), &mut world).unwrap();
    let classes: Vec<(String, ToolClass)> = world
        .emitted
        .iter()
        .filter_map(|event| match event {
            StreamEvent::ToolCallPending { name, class, .. } => Some((name.clone(), *class)),
            _ => None,
        })
        .collect();
    assert_eq!(
        classes,
        [
            ("read".to_string(), ToolClass::ReadOnly),
            ("ghost".to_string(), ToolClass::Mutating)
        ]
    );
}

#[test]
fn stream_cancel_before_start_returns_cancelled_via_into_result() {
    let agent = agent_with(vec![]);
    let mut world = World::new(|_| panic!("never asked"));
    world.cancelled = Box::new(|| true);
    let err = drive(&agent, true, prompt("hi"), &mut world).unwrap_err();
    let AgentError::Cancelled { partial } = &err else {
        panic!("expected Cancelled, got {err:?}");
    };
    assert_eq!(partial.stop_reason, StopReason::Cancelled);
    assert!(partial.new_messages.is_empty());
}

#[test]
fn stream_ends_when_the_consumer_leaves() {
    let agent = agent_with(vec![]);
    let mut world = World::new(|_| text_answer("lost"));
    world.consumer_leaves_after = Some(1);
    let err = drive(&agent, true, prompt("hi"), &mut world).unwrap_err();
    assert!(matches!(
        &err,
        AgentError::Cancelled { partial } if partial.text == "lost" && partial.new_messages.is_empty()
    ));
}

#[test]
fn stream_failure_mid_answer_keeps_the_text() {
    let (mut run, action) = AgentRun::start(
        agent_with(vec![]).run_settings(true),
        Arc::new(tkach::ToolRegistry::new(vec![])),
        prompt("hi"),
    );
    assert!(matches!(action, RunAction::BeginTurn));
    run.step(RunReply::TurnBegun(TurnId::new(1, 2)));
    run.step(RunReply::Sent { delivered: true });
    run.step(RunReply::CancelChecked { cancelled: false });
    run.step(RunReply::Policies(Vec::new()));
    run.step(RunReply::Opened(Ok(())));
    run.step(RunReply::Pulled(Pull::Item(Ok(StreamEvent::ContentDelta("half".into())))));
    run.step(RunReply::Sent { delivered: true });
    let action = run.step(RunReply::Pulled(Pull::Item(Err(ProviderError::Other("x".into())))));
    match action {
        RunAction::Finish(Err(AgentError::Provider { partial, .. })) => {
            assert_eq!(partial.text, "half");
            assert_eq!(partial.stop_reason, StopReason::EndTurn);
        }
        other => panic!("expected the failure, got {other:?}"),
    }
    assert!(!run.expects(&RunReply::Traced));
}

#[test]
fn build_rejects_duplicate_tool_names() {
    let err = match Agent::builder()
        .model("test")
        .tool(tool("read", ToolClass::ReadOnly))
        .tool(tool("read", ToolClass::ReadOnly))
        .build()
    {
        Ok(_) => panic!("duplicate tool names must fail fast"),
        Err(err) => err,
    };

    assert_eq!(
        err.message(),
        "duplicate tool name 'read' (registered 2 times); each tool must have a unique name"
    );
    assert!(matches!(
        err,
        BuildError::DuplicateToolName { name, count }
            if name == "read" && count == 2
    ));
}

#[test]
fn builder_threads_thinking_to_provider_request() {
    let agent = Agent::builder()
        .model("test")
        .system("be brief")
        .max_tokens(77)
        .thinking(ThinkingConfig::Effort(ThinkingEffort::High))
        .build()
        .unwrap();
    let mut world = World::new(|req| {
        assert_eq!(
            req.thinking,
            Some(ThinkingConfig::Effort(ThinkingEffort::High))
        );
        assert_eq!(req.max_tokens, 77);
        assert_eq!(req.system.as_ref().unwrap()[0].text, "be brief");
        text_answer("ok")
    });
    drive(&agent, false, prompt("hi"), &mut world).unwrap();
}

#[test]
fn tool_definitions_are_sorted_with_the_breakpoint_last() {
    let agent = Agent::builder()
        .model("test")
        .tools(defaults())
        .cache_tools(CacheControl::ephemeral_1h())
        .build()
        .unwrap();
    let definitions = agent.tool_definitions();
    let names: Vec<&str> = definitions.iter().map(|d| d.name.as_str()).collect();
    assert_eq!(names, ["bash", "edit", "glob", "grep", "read", "web_fetch", "write"]);
    for definition in &definitions[..6] {
        assert!(definition.cache_control.is_none());
    }
    assert_eq!(definitions[6].cache_control, Some(CacheControl::ephemeral_1h()));
}

#[test]
fn queued_messages_join_behind_the_results() {
    let agent = agent_with(defaults());
    let mut n = 0;
    let mut world = World::new(move |req| {
        n += 1;
        if n == 1 {
            answer(vec![call("t1", "read")], StopReason::ToolUse)
        } else {
            assert_eq!(req.messages.len(), 4);
            assert!(matches!(&req.messages[2].content[0], Content::ToolResult { .. }));
            assert_eq!(req.messages[3].content.len(), 2);
            text_answer("heard")
        }
    });
    world.queued = vec![
        SteerCommand::Append { content: vec![Content::text("one")] },
        SteerCommand::Append { content: vec![Content::text("two")] },
    ];
    let result = drive(&agent, false, prompt("hi"), &mut world).unwrap();
    assert_eq!(result.new_messages.len(), 4);
}

fn guarded_by(
    name: &str,
    continuation_prompt: &str,
    predicate: Arc<dyn GuardPredicate>,
) -> impl FnMut(&AgentSnapshot) -> GuardEval {
    let mut guards = GuardSet::new();
    guards
        .install(ContinuationGuard {
            name: name.into(),
            trigger: GuardTrigger::OnTurnEnd,
            predicate,
            continuation_prompt: continuation_prompt.into(),
            max_iterations: Some(1),
            escape: GuardEscape::MaxIterations,
        })
        .unwrap();
    move |snapshot: &AgentSnapshot| {
        guards.evaluate(
            GuardTrigger::OnTurnEnd,
            snapshot,
            |guard: &ContinuationGuard, snapshot: &AgentSnapshot| {
                PredicateOutcome::Decided(guard.predicate.decide(snapshot))
            },
        )
    }
}

#[test]
fn continuation_guard_abort_after_tool_result_stops_run() {
    let agent = agent_with(vec![tool("mutate", ToolClass::Mutating)]);
    let calls = std::cell::Cell::new(0);
    let mut world = World::new(|_| {
        calls.set(calls.get() + 1);
        assert_eq!(calls.get(), 1, "guard abort should stop before the next provider turn");
        answer(vec![call("m1", "mutate")], StopReason::ToolUse)
    });
    world.guards = Box::new(guarded_by(
        "abort",
        "unused",
        Arc::new(|snapshot: &AgentSnapshot| {
            assert_eq!(snapshot.recent_tool_calls, vec!["mutate:m1".to_string()]);
            GuardDecision::Abort { reason: "stop now".into() }
        }),
    ));
    let result = drive(&agent, false, prompt("start"), &mut world).unwrap();
    assert_eq!(calls.get(), 1);
    assert_eq!(result.stop_reason, StopReason::ToolUse);
    assert_eq!(result.new_messages.len(), 2);
}

fn on_the_first_turn() -> Arc<dyn GuardPredicate> {
    Arc::new(|snapshot: &AgentSnapshot| {
        if snapshot.turn_count == 1 {
            GuardDecision::Continue
        } else {
            GuardDecision::Stop
        }
    })
}

fn says(message: &Message, text: &str) -> bool {
    message
        .content
        .iter()
        .any(|c| matches!(c, Content::Text { text: said, .. } if said.contains(text)))
}

#[test]
fn continuation_guard_injects_until_predicate_stops() {
    let agent = agent_with(vec![]);
    let mut calls = 0;
    let mut world = World::new(|req| {
        calls += 1;
        if calls == 1 {
            text_answer("first")
        } else {
            assert!(req.messages.iter().any(|m| says(m, "continue please")));
            text_answer("second")
        }
    });
    world.guards = Box::new(guarded_by("once", "continue please", on_the_first_turn()));
    let result = drive(&agent, false, prompt("hi"), &mut world).unwrap();
    assert_eq!(result.text, "second");
}

#[test]
fn continuations_are_told_to_the_consumer() {
    let agent = agent_with(vec![]);
    let mut world = World::new(|_| text_answer("again"));
    world.guards = Box::new(guarded_by("once", "continue please", on_the_first_turn()));
    drive(&agent, true, prompt("hi"), &mut world).unwrap();
    assert_eq!(
        public_events(&world.emitted),
        ["TurnStarted", "ContentDelta", "ContinuationInjected", "TurnStarted", "ContentDelta"]
    );
    assert!(matches!(
        &world.emitted[2],
        StreamEvent::ContinuationInjected { guard_name, iteration: 1 } if guard_name == "once"
    ));
}

#[test]
fn queued_messages_join_where_a_guard_sends_the_agent_on() {
    let agent = agent_with(vec![]);
    let mut calls = 0;
    let mut world = World::new(|req| {
        calls += 1;
        if calls == 1 {
            text_answer("first")
        } else {
            assert_eq!(req.messages.len(), 4);
            assert!(says(&req.messages[2], "continue please"));
            assert!(says(&req.messages[3], "queued fact"));
            text_answer("second")
        }
    });
    world.queued = vec![SteerCommand::Append { content: vec![Content::text("queued fact")] }];
    world.guards = Box::new(guarded_by("once", "continue please", on_the_first_turn()));
    let result = drive(&agent, false, prompt("hi"), &mut world).unwrap();
    assert_eq!(result.text, "second");
    assert_eq!(result.new_messages.len(), 4);
}

#[test]
fn every_answer_is_followed_by_its_results() {
    let agent = agent_with(defaults());
    let mut n = 0;
    let mut world = World::new(move |_| {
        n += 1;
        match n {
            1 => answer(vec![call("a", "read"), call("b", "ghost")], StopReason::ToolUse),
            2 => answer(vec![call("c", "bash")], StopReason::ToolUse),
            _ => text_answer("done"),
        }
    });
    let result = drive(&agent, false, prompt("go"), &mut world).unwrap();
    let ids: Vec<Vec<&str>> = result
        .new_messages
        .iter()
        .map(|m| {
            m.content
                .iter()
                .filter_map(|c| match c {
                    Content::ToolUse { id, .. } => Some(id.as_str()),
                    Content::ToolResult { tool_use_id, .. } => Some(tool_use_id.as_str()),
                    _ => None,
                })
                .collect()
        })
        .collect();
    assert_eq!(ids, [vec!["a", "b"], vec!["a", "b"], vec!["c"], vec!["c"], vec![]]);
}

#[test]
fn no_turn_is_active_behind_a_result() {
    let partial = || AgentResult {
        new_messages: Vec::new(),
        text: String::new(),
        usage: Usage::default(),
        stop_reason: StopReason::Cancelled,
    };
    let ends = [
        RunAction::Finish(Ok(partial())),
        RunAction::Finish(Err(AgentError::Cancelled { partial: partial() })),
        RunAction::Finish(Err(AgentError::Provider {
            source: ProviderError::Other("down".into()),
            partial: partial(),
        })),
        RunAction::Finish(Err(AgentError::MaxTurnsReached { turns: 1, partial: partial() })),
    ];
    for end in ends {
        let mut handle: AgentHandle<()> = AgentHandle::new();
        assert!(handle.current_turn_id().is_none());
        handle.begin_turn(TurnId::new(7, 1));
        handle.follow(&RunAction::Pull);
        assert_eq!(handle.current_turn_id().unwrap().as_str(), "turn_7_1");
        handle.follow(&end);
        assert!(handle.current_turn_id().is_none());
    }
}

#[test]
fn boundaries_come_before_tools_and_guards() {
    let snapshot = AgentSnapshot {
        turn_count: 1,
        last_assistant_message: None,
        recent_tool_calls: Vec::new(),
    };
    assert!(RunAction::RunTools(Vec::new()).passes_boundary());
    assert!(RunAction::AskGuards(snapshot.clone()).passes_boundary());
    assert!(!RunAction::GatherPolicies.passes_boundary());
    assert!(!RunAction::BeginTurn.passes_boundary());
    assert!(!RunAction::Pull.passes_boundary());
    assert!(RunAction::AskGuards(snapshot).reports());
    assert!(!RunAction::GatherPolicies.reports());
}

#[test]
fn queued_user_message_drains_before_next_provider_request() {
    let agent = agent_with(vec![tool("slow", ToolClass::ReadOnly)]);
    let mut n = 0;
    let mut world = World::new(move |req| {
        n += 1;
        if n == 1 {
            answer(vec![call("slow-1", "slow")], StopReason::ToolUse)
        } else {
            assert!(
                req.messages.iter().any(|m| says(m, "queued fact")),
                "queued steering message was not sent to provider"
            );
            text_answer("final")
        }
    });
    world.during_tools = Box::new(|steering| {
        let active = steering.handle.current_turn_id();
        let (turn_id, command) =
            steering.handle.queue_user_message("queued fact", active).unwrap();
        assert_eq!(Some(turn_id), steering.handle.current_turn_id());
        steering.queued.push(command);
    });
    let result = drive(&agent, false, prompt("start"), &mut world).unwrap();
    assert_eq!(result.text, "final");
    assert!(result.new_messages.iter().any(|m| says(m, "queued fact")));
    assert!(world.handle.current_turn_id().is_none());
}

#[test]
fn interrupt_tool_cancels_only_that_tool_and_turn_continues() {
    let agent = agent_with(vec![tool("slow", ToolClass::ReadOnly)]);
    let slow = || InterruptTarget::Tool { tool_call_id: "slow-1".into() };
    let mut n = 0;
    let mut world = World::new(move |req| {
        n += 1;
        if n == 1 {
            answer(vec![call("slow-1", "slow")], StopReason::ToolUse)
        } else {
            let saw_cancelled_result = req.messages.iter().any(|m| {
                m.content.iter().any(|c| match c {
                    Content::ToolResult { content, is_error, .. } => {
                        *is_error && content.contains("cancelled")
                    }
                    _ => false,
                })
            });
            assert!(saw_cancelled_result, "tool interrupt was not returned to the model");
            text_answer("recovered")
        }
    });
    world.tool = Box::new(|_| panic!("the tool was interrupted"));
    world.during_tools = Box::new(|steering| {
        let (outcome, interrupted) = steering.handle.interrupt(slow()).unwrap();
        assert_eq!(outcome, InterruptOutcome::Cancelled);
        match interrupted {
            Interrupted::Tool(token) => token.set(true),
            _ => panic!("only the tool is cancelled"),
        }
    });
    let result = drive(&agent, false, prompt("start"), &mut world).unwrap();
    assert_eq!(result.text, "recovered");
    let (after_done, _) = world.handle.interrupt(slow()).unwrap();
    assert_eq!(after_done, InterruptOutcome::AlreadyDone);
}

#[test]
fn stream_with_handle_emits_turn_started() {
    let agent = agent_with(vec![]);
    let mut world = World::new(|_| text_answer("hello"));
    let result = drive(&agent, true, prompt("hi"), &mut world).unwrap();
    let StreamEvent::TurnStarted { turn_id } = &world.emitted[0] else {
        panic!("expected TurnStarted");
    };
    assert!(turn_id.as_str().starts_with("turn_"));
    assert_eq!(result.text, "hello");
}

#[test]
fn plan_mode_denies_mutating_tool_without_approval() {
    let agent = agent_with(vec![tool("mutate", ToolClass::Mutating)]);
    let mut n = 0;
    let mut world = World::new(|req| {
        n += 1;
        if n == 1 {
            answer(vec![call("m1", "mutate")], StopReason::ToolUse)
        } else {
            let denied = req.messages.iter().any(|m| {
                m.content.iter().any(|c| match c {
                    Content::ToolResult { content, is_error, .. } => {
                        *is_error && content.contains("mode denied")
                    }
                    _ => false,
                })
            });
            assert!(denied, "PlanMode did not deny mutating tool");
            text_answer("planned")
        }
    });
    world.tool = Box::new(|_| panic!("no tool runs"));
    set_mode(&mut world.modes, PlanMode, ModeAuthority::Operator);
    let result = drive(&agent, false, prompt("start"), &mut world).unwrap();
    assert_eq!(result.text, "planned");
}

#[test]
fn operator_mode_change_emits_before_single_turn_stream_finishes() {
    let agent = agent_with(vec![]);
    let changed = std::cell::Cell::new(false);
    let mut world = World::new(|_| text_answer("hello"));
    world.consumer = Box::new(|event, modes| match event {
        StreamEvent::TurnStarted { .. } => set_mode(modes, PlanMode, ModeAuthority::Operator),
        StreamEvent::ModeChanged { from, to, authority } => {
            changed.set(from == "default" && to == "plan");
            assert_eq!(*authority, ModeAuthority::Operator);
        }
        _ => {}
    });
    let result = drive(&agent, true, prompt("hi"), &mut world).unwrap();
    assert!(changed.get(), "operator mode change was not emitted");
    assert_eq!(result.text, "hello");
}

#[test]
fn agent_mode_request_event_can_be_cancelled_before_apply() {
    let agent = agent_with(vec![tool("slow", ToolClass::ReadOnly)]);
    let requested = std::cell::Cell::new(false);
    let changed = std::cell::Cell::new(false);
    let mut n = 0;
    let mut world = World::new(move |_| {
        n += 1;
        if n == 1 {
            answer(vec![call("slow-1", "slow")], StopReason::ToolUse)
        } else {
            text_answer("done")
        }
    });
    world.during_tools = Box::new(|steering| {
        set_mode(steering.modes, PlanMode, ModeAuthority::Agent);
    });
    world.consumer = Box::new(|event, modes| match event {
        StreamEvent::ModeChangeRequested { from, to, .. } => {
            requested.set(from == "default" && to == "plan");
            modes.cancel_pending_mode_change().unwrap();
        }
        StreamEvent::ModeChanged { .. } => changed.set(true),
        _ => {}
    });
    let result = drive(&agent, true, prompt("start"), &mut world).unwrap();
    assert!(requested.get(), "agent mode request was not emitted");
    assert!(!changed.get(), "cancelled pending mode still applied");
    assert_eq!(result.text, "done");
}

#[test]
fn prompt_policies_go_into_the_next_request() {
    let mut set = PromptPolicySet::new();
    let id = set
        .install(PromptPolicy {
            name: "diagnose-first".into(),
            scope: PolicyScope::NextTurn,
            content: "Prefer diagnosis before code.".into(),
            precedence: 10,
            trigger: PolicyTrigger::Always,
        })
        .unwrap();
    let agent = agent_with(vec![]);
    let mut world = World::new(|req| {
        let system = req.system.as_ref().expect("policy creates system blocks");
        assert_eq!(
            system[0].text,
            "<!-- runtime policy: diagnose-first -->\nPrefer diagnosis before code."
        );
        text_answer("policy observed")
    });
    world.policies = set.apply_matches(&vec![id]);
    let result = drive(&agent, false, prompt("start"), &mut world).unwrap();
    assert_eq!(result.text, "policy observed");
    assert!(set.list().is_empty(), "NextTurn policy must remove itself after it applies");
}

fn scoped_agent(names: &[&str], tools: Vec<ToolSpec>) -> Agent<ScopedPolicy<dyn ToolPolicy>> {
    let list: Arc<dyn ToolPolicy> =
        Arc::new(AllowList::new(names.iter().map(|n| n.to_string()).collect()));
    AgentBuilder::with_policy(Arc::new(ScopedPolicy::new(list)))
        .model("parent")
        .tools(tools)
        .build()
        .unwrap()
}

fn child_of(
    parent: &Agent<ScopedPolicy<dyn ToolPolicy>>,
    sub: &SubAgent,
    input: &str,
) -> (Agent<ScopedPolicy<dyn ToolPolicy>>, Vec<Message>) {
    match sub.execute(&json(input), parent.depth(), parent.max_depth(), parent.executor()) {
        tkach::tools::sub_agent::SubAgentStart::Run { agent, history } => (agent, history),
        _ => panic!("the nested agent runs"),
    }
}

#[test]
fn subagent_filtered_tool_definitions_respect_parent_policy_without_child_allow_list() {
    let sub = SubAgent::new("child").filter_tool_definitions(true);
    let mut tools = defaults();
    tools.push(sub.tool_spec());
    let parent = scoped_agent(&["agent", "read"], tools);
    let (child, history) = child_of(&parent, &sub, "{\"prompt\":\"inspect visible tools\"}");
    let definitions = child.tool_definitions();
    let names: Vec<&str> = definitions.iter().map(|d| d.name.as_str()).collect();
    assert_eq!(names, ["agent", "read"]);
    let mut world = World::new(|req| {
        assert_eq!(req.model, "child");
        text_answer("child done")
    });
    let result = drive(&child, false, history, &mut world).unwrap();
    let output = SubAgent::finish(Ok(result));
    assert_eq!(output, ToolOutput::text("child done"));
}

#[test]
fn subagent_filtered_tool_definitions_respect_parent_policy_with_child_allow_list() {
    let sub = SubAgent::new("child")
        .tools_allow(vec!["read".into(), "grep".into()])
        .filter_tool_definitions(true);
    let mut tools = defaults();
    tools.push(sub.tool_spec());
    let parent = scoped_agent(&["agent", "read"], tools);
    let (child, _) = child_of(&parent, &sub, "{\"prompt\":\"inspect visible tools\"}");
    let definitions = child.tool_definitions();
    let names: Vec<&str> = definitions.iter().map(|d| d.name.as_str()).collect();
    assert_eq!(names, ["read"]);
}

#[test]
fn two_named_subagents_register_and_appear_in_tool_definitions() {
    let agent = Agent::builder()
        .model("parent")
        .tool(
            SubAgent::new("child-model")
                .name("research")
                .description("Read-only research")
                .tool_spec(),
        )
        .tool(
            SubAgent::new("child-model").name("writer").description("Mutating writer").tool_spec(),
        )
        .build()
        .expect("two distinct names must register without BuildError");
    let mut world = World::new(|req| {
        let names: Vec<&str> = req.tools.iter().map(|t| t.name.as_str()).collect();
        assert_eq!(names, vec!["research", "writer"]);
        assert_eq!(req.tools[0].input_schema.to_value()["required"][0], "prompt");
        text_answer("ok")
    });
    drive(&agent, false, prompt("hi"), &mut world).unwrap();
}

#[test]
fn subagent_tools_allow_denies_non_allowed_call_via_intersect_policy() {
    let sub = SubAgent::new("child-model").name("child").tools_allow(vec!["read".into()]);
    let mut tools = defaults();
    tools.push(sub.tool_spec());
    let all: Arc<dyn ToolPolicy> = Arc::new(AllowAll);
    let parent = AgentBuilder::with_policy(Arc::new(ScopedPolicy::new(all)))
        .model("parent")
        .tools(tools)
        .build()
        .unwrap();
    let observed = std::cell::RefCell::new(Vec::new());
    let mut turn = 0;
    let mut world = World::new(|_| {
        turn += 1;
        if turn == 1 {
            answer(
                vec![Content::ToolUse {
                    id: "sub-1".into(),
                    name: "child".into(),
                    input: json("{\"prompt\":\"do work\"}"),
                }],
                StopReason::ToolUse,
            )
        } else {
            text_answer("parent done")
        }
    });
    world.tool = Box::new(|call| {
        assert_eq!(call.name, "child");
        let (child, history) = match sub.execute(
            &call.input,
            parent.depth(),
            parent.max_depth(),
            parent.executor(),
        ) {
            tkach::tools::sub_agent::SubAgentStart::Run { agent, history } => (agent, history),
            _ => panic!("the nested agent runs"),
        };
        assert_eq!(child.depth(), 1);
        assert_eq!(child.max_depth(), 3);
        let mut child_turn = 0;
        let mut child_world = World::new(|req| {
            child_turn += 1;
            if child_turn == 1 {
                answer(
                    vec![Content::ToolUse {
                        id: "child-call-1".into(),
                        name: "write".into(),
                        input: json("{\"path\":\"/tmp/x\",\"content\":\"y\"}"),
                    }],
                    StopReason::ToolUse,
                )
            } else {
                for message in &req.messages {
                    for block in &message.content {
                        if let Content::ToolResult { content, is_error, .. } = block {
                            assert!(*is_error);
                            observed.borrow_mut().push(content.clone());
                        }
                    }
                }
                text_answer("child saw error")
            }
        });
        child_world.tool = Box::new(|_| panic!("the child may not write"));
        let result = drive(&child, false, history, &mut child_world).unwrap();
        Ok(SubAgent::finish(Ok(result)))
    });
    let result = drive(&parent, false, prompt("delegate"), &mut world).unwrap();
    assert_eq!(result.text, "parent done");
    assert!(matches!(
        &result.new_messages[1].content[0],
        Content::ToolResult { content, is_error: false, .. } if content == "child saw error"
    ));
    let joined = observed.borrow().join("|");
    assert!(joined.contains("not allowed by policy") && joined.contains("write"));
}

#[test]
fn subagent_calls_see_the_given_system_prompt() {
    let sub = SubAgent::new("child");
    let parent = scoped_agent(&["agent"], vec![sub.tool_spec()]);
    let (child, history) = child_of(&parent, &sub, "{\"prompt\":\"go\",\"system\":\"careful\"}");
    let mut world = World::new(|req| {
        assert_eq!(req.system.as_ref().unwrap()[0].text, "careful");
        text_answer("ok")
    });
    drive(&child, false, history, &mut world).unwrap();
}

#[test]
fn subagents_nest_only_so_deep() {
    let sub = SubAgent::new("child");
    let parent = scoped_agent(&["agent"], vec![sub.tool_spec()]);
    match sub.execute(&json("{\"prompt\":\"x\"}"), 3, 3, parent.executor()) {
        tkach::tools::sub_agent::SubAgentStart::Answered(output) => {
            assert!(output.is_error);
            assert_eq!(
                output.content,
                "Max sub-agent depth (3) reached. Cannot spawn further sub-agents."
            );
        }
        _ => panic!("too deep"),
    }
    match sub.execute(&json("{\"prompt\":7}"), 0, 3, parent.executor()) {
        tkach::tools::sub_agent::SubAgentStart::InvalidInput(text) => {
            assert_eq!(text, "prompt is required")
        }
        _ => panic!("no prompt"),
    }
    assert_eq!(
        SubAgent::finish(Err("boom".into())),
        ToolOutput::error("Sub-agent error: boom")
    );
}
