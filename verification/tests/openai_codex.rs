use serde_json::Value;
use tkach::providers::effort::{OpenAIEffort, OpenAISummary};
use tkach::providers::openai_codex::{
    build_request_body, complete, effective_reasoning_effort, effective_reasoning_summary,
    CodexCredentials, OpenAICodex,
};
use tkach::providers::response::{classify_error, is_failure, parse_retry_after};
use tkach::providers::sse::{ResponsesStream, SsePull, StreamStep};
use tkach::{
    Content, Json, JsonNumber, Message, ProviderError, Request, StopReason, StreamEvent,
    SystemBlock, ThinkingConfig, ThinkingEffort, ToolDefinition,
};

fn json(text: &str) -> Json {
    Json::parse(text).expect("valid JSON")
}

fn number(value: f64) -> JsonNumber {
    match Json::from_value(Value::from(value)) {
        Json::Number(n) => n,
        other => panic!("expected a number, got {other:?}"),
    }
}

fn sample_request() -> Request {
    Request {
        model: "gpt-5-codex".into(),
        system: Some(vec![SystemBlock::text("be brief")]),
        messages: vec![Message::user_text("hello")],
        tools: vec![ToolDefinition {
            name: "bash".into(),
            description: "shell".into(),
            input_schema: json("{\"type\":\"object\"}"),
            cache_control: None,
        }],
        max_tokens: 256,
        temperature: Some(number(0.5)),
        thinking: None,
    }
}

fn body_of(request: &Request, effort: Option<OpenAIEffort>, summary: Option<OpenAISummary>) -> Value {
    build_request_body(request, &effort, &summary).to_value()
}

#[test]
fn body_uses_codex_envelope() {
    let body = body_of(&sample_request(), None, Some(OpenAISummary::Auto));

    assert_eq!(body["model"], "gpt-5-codex");
    assert_eq!(body["store"], false);
    assert_eq!(body["stream"], true);
    assert_eq!(body["text"]["verbosity"], "low");
    assert_eq!(body["include"][0], "reasoning.encrypted_content");
    assert!(
        body.get("max_output_tokens").is_none(),
        "Codex backend does not honor max_output_tokens; do not send it"
    );
    assert_eq!(body["instructions"], "be brief");
    assert_eq!(body["temperature"], 0.5);
    assert_eq!(body["tools"][0]["type"], "function");
    assert_eq!(body["tools"][0]["name"], "bash");
    assert_eq!(body["tool_choice"], "auto");
    assert_eq!(body["parallel_tool_calls"], true);
    assert_eq!(body["input"][0]["role"], "user");
}

#[test]
fn reasoning_summary_default_is_auto() {
    let provider = OpenAICodex::new(());
    assert_eq!(provider.reasoning_summary(), Some(&OpenAISummary::Auto));
    assert!(provider.reasoning_effort().is_none());
}

#[test]
fn body_emits_reasoning_summary_for_responses_api() {
    let body = body_of(&sample_request(), None, Some(OpenAISummary::Auto));
    assert_eq!(body["reasoning"]["summary"], "auto");
    assert!(body["reasoning"].get("effort").is_none());
}

#[test]
fn default_endpoint_asks_for_summaries() {
    let body = OpenAICodex::new(()).request_body(&sample_request()).to_value();
    assert_eq!(body["reasoning"]["summary"], "auto");
    let detailed = OpenAICodex::new(()).with_reasoning_summary(OpenAISummary::Detailed);
    let body = detailed.request_body(&sample_request()).to_value();
    assert_eq!(body["reasoning"]["summary"], "detailed");
    let silent = OpenAICodex::new(()).without_reasoning();
    let body = silent.request_body(&sample_request()).to_value();
    assert!(body.get("reasoning").is_none());
    assert_eq!(body["include"][0], "reasoning.encrypted_content");
}

#[test]
fn body_emits_both_effort_and_summary_when_set() {
    let body = body_of(
        &sample_request(),
        Some(OpenAIEffort::Medium),
        Some(OpenAISummary::Detailed),
    );
    assert_eq!(body["reasoning"]["effort"], "medium");
    assert_eq!(body["reasoning"]["summary"], "detailed");
}

#[test]
fn body_omits_reasoning_when_disabled() {
    let body = body_of(&sample_request(), None, None);
    assert!(body.get("reasoning").is_none());
    assert_eq!(body["include"][0], "reasoning.encrypted_content");
}

#[test]
fn without_reasoning_clears_both_fields() {
    let provider = OpenAICodex::new(())
        .with_reasoning_effort("high".into())
        .without_reasoning();
    assert!(provider.reasoning_effort().is_none());
    assert!(provider.reasoning_summary().is_none());
}

#[test]
fn body_omits_tools_when_none() {
    let mut req = sample_request();
    req.tools.clear();
    let body = body_of(&req, None, Some(OpenAISummary::Auto));
    assert!(body.get("tools").is_none());
    assert!(body.get("tool_choice").is_none());
    assert!(body.get("parallel_tool_calls").is_none());
}

#[test]
fn credentials_debug_redacts_access_token() {
    let creds = CodexCredentials::new("supersecret", "acct_123");
    let rendered = creds.debug_text();
    assert!(!rendered.contains("supersecret"));
    assert!(rendered.contains("<redacted>"));
    assert!(rendered.contains("acct_123"));
}

#[test]
fn debug_text_quotes_the_account() {
    let creds = CodexCredentials::new("t", "a\"b");
    assert_eq!(
        creds.debug_text(),
        "CodexCredentials { access_token: \"<redacted>\", account_id: \"a\\\"b\" }"
    );
}

#[test]
fn debug_omits_credentials() {
    let provider =
        OpenAICodex::with_static_credentials(CodexCredentials::new("supersecret", "acct"));
    assert_eq!(provider.credentials().access_token, "supersecret");
    let rendered = provider.debug_text();
    assert!(!rendered.contains("supersecret"));
    assert!(rendered.contains("OpenAICodex"));
    assert_eq!(
        rendered,
        "OpenAICodex { base_url: \"https://chatgpt.com/backend-api\", originator: \"tkach\" }"
    );
}

#[test]
fn assistant_history_replays_function_call_id_split() {
    let req = Request {
        model: "gpt-5-codex".into(),
        system: None,
        messages: vec![
            Message::assistant(vec![Content::ToolUse {
                id: "call_1|fc_1".into(),
                name: "bash".into(),
                input: json("{\"command\":\"echo hi\"}"),
            }]),
            Message::user(vec![Content::tool_result("call_1|fc_1", "hi", false)]),
        ],
        tools: vec![],
        max_tokens: 128,
        temperature: None,
        thinking: None,
    };

    let body = body_of(&req, None, Some(OpenAISummary::Auto));
    let input = body["input"].as_array().unwrap();
    assert_eq!(input[0]["type"], "function_call");
    assert_eq!(input[0]["call_id"], "call_1");
    assert_eq!(input[0]["id"], "fc_1");
    assert_eq!(input[0]["arguments"], "{\"command\":\"echo hi\"}");
    assert_eq!(input[1]["type"], "function_call_output");
    assert_eq!(input[1]["call_id"], "call_1");
    assert_eq!(input[1]["output"], "hi");
    assert!(input[0].get("status").is_none());
}

#[test]
fn url_appends_codex_responses() {
    let provider = OpenAICodex::new(()).with_base_url("http://localhost:1234/api/");
    assert_eq!(
        provider.responses_url(),
        "http://localhost:1234/api/codex/responses"
    );
}

fn req_with(thinking: Option<ThinkingConfig>) -> Request {
    Request {
        model: "gpt-5-codex".into(),
        system: None,
        messages: vec![Message::user_text("hi")],
        tools: vec![],
        max_tokens: 64,
        temperature: None,
        thinking,
    }
}

fn effective_body(
    request: &Request,
    effort: Option<OpenAIEffort>,
    summary: Option<OpenAISummary>,
) -> Value {
    let effort = effective_reasoning_effort(request, &effort);
    let summary = effective_reasoning_summary(request, &summary);
    build_request_body(request, &effort, &summary).to_value()
}

#[test]
fn openai_codex_effort_high_emits_wire_reasoning_effort_high() {
    let r = req_with(Some(ThinkingConfig::Effort(ThinkingEffort::High)));
    let body = effective_body(&r, None, None);
    assert_eq!(body["reasoning"]["effort"], "high");
}

#[test]
fn per_call_effort_overrides_instance() {
    let r = req_with(Some(ThinkingConfig::Effort(ThinkingEffort::Low)));
    let body = effective_body(&r, Some(OpenAIEffort::High), Some(OpenAISummary::Detailed));
    assert_eq!(body["reasoning"]["effort"], "low");
    assert_eq!(body["reasoning"]["summary"], "detailed");
}

#[test]
fn disabled_drops_reasoning_block() {
    let r = req_with(Some(ThinkingConfig::Disabled));
    let body = effective_body(&r, Some(OpenAIEffort::High), Some(OpenAISummary::Auto));
    assert!(
        body.get("reasoning").is_none(),
        "Disabled must drop reasoning entirely; got {body:?}"
    );
}

#[test]
fn openai_codex_budget_falls_back_to_instance_silently() {
    let r = req_with(Some(ThinkingConfig::Budget(8192)));
    let body = effective_body(&r, Some(OpenAIEffort::Medium), Some(OpenAISummary::Auto));
    assert_eq!(body["reasoning"]["effort"], "medium");
    assert_eq!(body["reasoning"]["summary"], "auto");
}

#[test]
fn openai_codex_other_effort_passes_through_verbatim() {
    let r = req_with(Some(ThinkingConfig::Effort(ThinkingEffort::Other(
        "xhigh".into(),
    ))));
    let body = effective_body(&r, None, None);
    assert_eq!(body["reasoning"]["effort"], "xhigh");
}

#[test]
fn known_levels_are_read_in_any_case() {
    assert_eq!(OpenAIEffort::from("HIGH"), OpenAIEffort::High);
    assert_eq!(OpenAIEffort::from("Medium"), OpenAIEffort::Medium);
    assert_eq!(OpenAIEffort::from("XHigh").as_wire(), "XHigh");
    assert_eq!(OpenAISummary::from("DETAILED").as_wire(), "detailed");
    assert_eq!(OpenAISummary::from("terse").as_wire(), "terse");
}

/// Runs a stream on the data of server-sent events, as a driver does.
fn stream_items(data: &[&str]) -> Vec<Result<StreamEvent, ProviderError>> {
    let mut stream = ResponsesStream::new();
    let mut pulls = data.iter();
    let mut items = Vec::new();
    loop {
        match stream.next() {
            StreamStep::Emit(item) => items.push(item),
            StreamStep::End => return items,
            StreamStep::Pull => stream.feed(match pulls.next() {
                Some(text) => SsePull::Data(text.to_string()),
                None => SsePull::Closed,
            }),
        }
    }
}

fn build_request() -> Request {
    Request {
        model: "gpt-5-codex".into(),
        system: None,
        messages: vec![Message::user_text("ping")],
        tools: vec![ToolDefinition {
            name: "bash".into(),
            description: "shell".into(),
            input_schema: json("{\"type\":\"object\"}"),
            cache_control: None,
        }],
        max_tokens: 256,
        temperature: None,
        thinking: None,
    }
}

#[test]
fn stream_sends_codex_headers_and_body_shape() {
    let provider =
        OpenAICodex::with_static_credentials(CodexCredentials::new("secret-token", "acct_42"))
            .with_base_url("http://localhost:1");
    let request = provider.http_request(provider.credentials(), &build_request());

    assert_eq!(request.url, "http://localhost:1/codex/responses");
    assert_eq!(request.bearer, "secret-token");
    let header = |name: &str| {
        request
            .headers
            .iter()
            .find(|(n, _)| n == name)
            .map(|(_, v)| v.clone())
    };
    assert_eq!(header("chatgpt-account-id").as_deref(), Some("acct_42"));
    assert_eq!(header("OpenAI-Beta").as_deref(), Some("responses=experimental"));
    assert_eq!(header("originator").as_deref(), Some("tkach"));
    assert_eq!(header("accept").as_deref(), Some("text/event-stream"));
    assert_eq!(header("content-type").as_deref(), Some("application/json"));

    let body = request.body.to_value();
    assert_eq!(body["model"], "gpt-5-codex");
    assert_eq!(body["store"], false);
    assert_eq!(body["stream"], true);
    assert_eq!(body["text"]["verbosity"], "low");
    assert_eq!(body["include"][0], "reasoning.encrypted_content");
    assert!(body.get("max_output_tokens").is_none());
    assert_eq!(body["tools"][0]["name"], "bash");

    let items = stream_items(&[
        "{\"type\":\"response.completed\",\"response\":{\"status\":\"completed\",\"usage\":{\"input_tokens\":3,\"output_tokens\":5}}}",
    ]);
    assert!(matches!(items.last(), Some(Ok(StreamEvent::Done))));
}

#[test]
fn originator_header_can_be_overridden() {
    let provider = OpenAICodex::with_static_credentials(CodexCredentials::new("t", "acct_1"))
        .with_originator("sunny");
    let request = provider.http_request(provider.credentials(), &build_request());
    assert!(request
        .headers
        .contains(&("originator".to_string(), "sunny".to_string())));
}

#[test]
fn streaming_text_and_tool_calls_are_emitted() {
    let items = stream_items(&[
        "{\"type\":\"response.output_text.delta\",\"delta\":\"hello \"}",
        "{\"type\":\"response.output_text.delta\",\"delta\":\"world\"}",
        "{\"type\":\"response.output_item.added\",\"output_index\":0,\"item\":{\"id\":\"fc_1\",\"type\":\"function_call\",\"call_id\":\"call_1\",\"name\":\"bash\",\"arguments\":\"\"}}",
        "{\"type\":\"response.function_call_arguments.delta\",\"item_id\":\"fc_1\",\"delta\":\"{\\\"command\\\":\\\"ls\\\"}\"}",
        "{\"type\":\"response.function_call_arguments.done\",\"item_id\":\"fc_1\",\"name\":\"bash\",\"arguments\":\"{\\\"command\\\":\\\"ls\\\"}\"}",
        "{\"type\":\"response.output_item.done\",\"output_index\":0,\"item\":{\"id\":\"fc_1\",\"type\":\"function_call\",\"call_id\":\"call_1\",\"name\":\"bash\",\"arguments\":\"{\\\"command\\\":\\\"ls\\\"}\"}}",
        "{\"type\":\"response.completed\",\"response\":{\"status\":\"completed\",\"usage\":{\"input_tokens\":10,\"output_tokens\":4}}}",
    ]);
    let mut text = String::new();
    let mut tool_calls = Vec::new();
    let mut stop = StopReason::EndTurn;
    let mut input_tokens = 0;
    for item in items {
        match item.unwrap() {
            StreamEvent::ContentDelta(delta) => text.push_str(&delta),
            StreamEvent::ToolUse { id, name, input } => tool_calls.push((id, name, input)),
            StreamEvent::MessageDelta { stop_reason } => stop = stop_reason,
            StreamEvent::Usage(u) => input_tokens = u.input_tokens,
            StreamEvent::Done => break,
            _ => {}
        }
    }
    assert_eq!(text, "hello world");
    assert_eq!(tool_calls.len(), 1);
    assert_eq!(tool_calls[0].0, "call_1|fc_1");
    assert_eq!(tool_calls[0].1, "bash");
    assert_eq!(tool_calls[0].2.to_value()["command"], "ls");
    assert_eq!(stop, StopReason::ToolUse);
    assert_eq!(input_tokens, 10);
}

#[test]
fn complete_collects_stream_into_response() {
    let items = stream_items(&[
        "{\"type\":\"response.output_text.delta\",\"delta\":\"answer\"}",
        "{\"type\":\"response.completed\",\"response\":{\"status\":\"completed\",\"usage\":{\"input_tokens\":2,\"output_tokens\":1}}}",
    ]);
    let response = complete(items).expect("complete");
    assert_eq!(response.stop_reason, StopReason::EndTurn);
    assert_eq!(response.usage.input_tokens, 2);
    assert_eq!(response.content.len(), 1);
    let text = match &response.content[0] {
        Content::Text { text, .. } => text.clone(),
        other => panic!("expected text content, got {other:?}"),
    };
    assert_eq!(text, "answer");
}

#[test]
fn complete_stops_at_the_first_failure() {
    let items = vec![
        Ok(StreamEvent::ContentDelta("a".into())),
        Err(ProviderError::Other("gone".into())),
        Ok(StreamEvent::ContentDelta("b".into())),
    ];
    assert_eq!(complete(items).unwrap_err(), ProviderError::Other("gone".into()));
}

#[test]
fn complete_keeps_blocks_in_order_and_nothing_behind_the_end() {
    let items = vec![
        Ok(StreamEvent::ContentDelta("one".into())),
        Ok(StreamEvent::ToolUse {
            id: "c1".into(),
            name: "bash".into(),
            input: json("{}"),
        }),
        Ok(StreamEvent::ContentDelta("two".into())),
        Ok(StreamEvent::MessageDelta { stop_reason: StopReason::ToolUse }),
        Ok(StreamEvent::Done),
        Ok(StreamEvent::ContentDelta("late".into())),
        Err(ProviderError::Other("late".into())),
    ];
    let response = complete(items).unwrap();
    assert_eq!(response.stop_reason, StopReason::ToolUse);
    assert_eq!(response.content.len(), 3);
    assert!(matches!(&response.content[0], Content::Text { text, .. } if text == "one"));
    assert!(matches!(&response.content[1], Content::ToolUse { id, .. } if id == "c1"));
    assert!(matches!(&response.content[2], Content::Text { text, .. } if text == "two"));
}

fn check_status(status: u16, body: String, retry_after_ms: Option<u64>) -> Option<ProviderError> {
    if is_failure(status) {
        Some(classify_error(status, body, retry_after_ms))
    } else {
        None
    }
}

#[test]
fn unauthorized_does_not_retry_internally() {
    match check_status(401, "token expired".into(), None) {
        None => panic!("must surface 401 before stream begins"),
        Some(ProviderError::Api { status, retryable, .. }) => {
            assert_eq!(status, 401);
            assert!(!retryable, "401 must be non-retryable");
        }
        Some(other) => panic!("expected ProviderError::Api, got {other:?}"),
    }
    assert!(check_status(200, String::new(), None).is_none());
    assert!(check_status(399, String::new(), None).is_none());
}

#[test]
fn rate_limit_classification_uses_retry_after() {
    let retry = parse_retry_after(Some("7"));
    match check_status(429, "slow down".into(), retry) {
        Some(ProviderError::RateLimit { retry_after_ms }) => {
            assert_eq!(retry_after_ms, Some(7_000));
        }
        other => panic!("expected RateLimit, got {other:?}"),
    }
    assert_eq!(
        check_status(503, String::new(), Some(1)),
        Some(ProviderError::Overloaded { retry_after_ms: Some(1) })
    );
    assert!(matches!(
        check_status(502, "bad".into(), None),
        Some(ProviderError::Api { status: 502, retryable: true, .. })
    ));
    assert!(matches!(
        check_status(600, "odd".into(), None),
        Some(ProviderError::Api { status: 600, retryable: false, .. })
    ));
}

#[test]
fn retry_after_takes_whole_seconds_only() {
    assert_eq!(parse_retry_after(None), None);
    assert_eq!(parse_retry_after(Some(" 12 ")), Some(12_000));
    assert_eq!(parse_retry_after(Some("+3")), Some(3_000));
    assert_eq!(parse_retry_after(Some("0")), Some(0));
    assert_eq!(parse_retry_after(Some("")), None);
    assert_eq!(parse_retry_after(Some("+")), None);
    assert_eq!(parse_retry_after(Some("-1")), None);
    assert_eq!(parse_retry_after(Some("1.5")), None);
    assert_eq!(parse_retry_after(Some("Wed, 21 Oct 2015 07:28:00 GMT")), None);
    assert_eq!(parse_retry_after(Some("99999999999999999999999")), None);
}

#[test]
fn failed_response_event_surfaces_as_error() {
    let items = stream_items(&[
        "{\"type\":\"response.failed\",\"response\":{\"error\":{\"message\":\"model timeout\"}}}",
    ]);
    let mut saw_error = false;
    for item in items {
        if let Err(ProviderError::Api { message, .. }) = item {
            assert!(message.contains("model timeout"));
            saw_error = true;
        }
    }
    assert!(saw_error, "response.failed must surface as Err");
}

#[test]
fn incomplete_max_tokens_maps_stop_reason() {
    let items = stream_items(&[
        "{\"type\":\"response.output_text.delta\",\"delta\":\"partial\"}",
        "{\"type\":\"response.incomplete\",\"response\":{\"status\":\"incomplete\",\"incomplete_details\":{\"reason\":\"max_output_tokens\"}}}",
    ]);
    let mut stop = StopReason::EndTurn;
    for item in items {
        if let Ok(StreamEvent::MessageDelta { stop_reason }) = item {
            stop = stop_reason;
        }
    }
    assert_eq!(stop, StopReason::MaxTokens);
}

#[test]
fn stream_passes_over_noise_and_ends_once() {
    let items = stream_items(&[
        "   ",
        "not json",
        "{\"type\":\"response.created\"}",
        "{\"type\":\"response.output_text.delta\",\"delta\":\"\"}",
        "{\"type\":\"response.output_text.delta\",\"delta\":\"x\"}",
        " [DONE] ",
    ]);
    let names: Vec<&str> = items
        .iter()
        .map(|item| match item {
            Ok(StreamEvent::ContentDelta(_)) => "text",
            Ok(StreamEvent::Usage(_)) => "usage",
            Ok(StreamEvent::MessageDelta { .. }) => "stop",
            Ok(StreamEvent::Done) => "done",
            _ => "other",
        })
        .collect();
    assert_eq!(names, ["text", "usage", "stop", "done"]);
}

#[test]
fn stream_reports_a_failed_read_and_goes_on() {
    let mut stream = ResponsesStream::new();
    assert!(matches!(stream.next(), StreamStep::Pull));
    stream.feed(SsePull::Failed("reset".into()));
    match stream.next() {
        StreamStep::Emit(Err(ProviderError::Other(text))) => {
            assert_eq!(text, "SSE read error: reset")
        }
        other => panic!("expected the failure, got {other:?}"),
    }
    assert!(matches!(stream.next(), StreamStep::Pull));
    stream.feed(SsePull::Closed);
    assert!(matches!(stream.next(), StreamStep::Emit(Ok(StreamEvent::Usage(_)))));
    assert!(matches!(stream.next(), StreamStep::Emit(Ok(StreamEvent::MessageDelta { .. }))));
    assert!(matches!(stream.next(), StreamStep::Emit(Ok(StreamEvent::Done))));
    assert!(matches!(stream.next(), StreamStep::End));
}

#[test]
fn stream_error_event_ends_the_stream() {
    let items = stream_items(&[
        "{\"type\":\"error\",\"message\":\"boom\"}",
        "{\"type\":\"response.output_text.delta\",\"delta\":\"late\"}",
    ]);
    assert_eq!(items.len(), 1);
    assert!(matches!(
        &items[0],
        Err(ProviderError::Api { status: 500, message, retryable: false }) if message == "boom"
    ));
}
