use serde_json::Value;
use std::collections::VecDeque;
use tkach::providers::effort::{OpenAIEffort, OpenAISummary};
use tkach::providers::input::{combined_tool_use_id, split_tool_use_id};
use tkach::providers::openai_responses::{
    build_request_body, effective_reasoning, OpenAIResponses, ReasoningConfig,
};
use tkach::providers::response::{convert_response_value, decode_body};
use tkach::providers::sse::ResponsesSseParser;
use tkach::{
    Content, Json, Message, ProviderError, Request, StopReason, StreamEvent, SystemBlock,
    ThinkingConfig, ThinkingEffort, ThinkingMetadata, ThinkingProvider,
};

fn json(text: &str) -> Json {
    Json::parse(text).expect("valid JSON")
}

#[test]
fn request_includes_reasoning_and_encrypted_content() {
    let req = Request {
        model: "gpt-5".into(),
        system: Some(vec![SystemBlock::text("be brief")]),
        messages: vec![Message::user_text("solve")],
        tools: vec![],
        max_tokens: 128,
        temperature: None,
        thinking: None,
    };
    let reasoning = ReasoningConfig {
        effort: OpenAIEffort::Medium,
        summary: OpenAISummary::Auto,
    };

    let body = build_request_body(&req, Some(&reasoning), true).to_value();

    assert_eq!(body["model"], "gpt-5");
    assert_eq!(body["instructions"], "be brief");
    assert_eq!(body["reasoning"]["effort"], "medium");
    assert_eq!(body["reasoning"]["summary"], "auto");
    assert_eq!(body["include"][0], "reasoning.encrypted_content");
    assert_eq!(body["input"][0]["role"], "user");
    assert_eq!(body["input"][0]["content"], "solve");
    assert_eq!(body["max_output_tokens"], 128);
    assert_eq!(body["stream"], false);
    assert_eq!(body["store"], false);
}

#[test]
fn request_replays_openai_reasoning_and_tool_state() {
    let req = Request {
        model: "gpt-5".into(),
        system: None,
        messages: vec![
            Message::assistant(vec![
                Content::thinking(
                    "summary",
                    ThinkingProvider::OpenAIResponses,
                    ThinkingMetadata::openai_responses(
                        Some("rs_1".into()),
                        Some(0),
                        0,
                        Some("enc".into()),
                    ),
                ),
                Content::ToolUse {
                    id: "call_1|fc_1".into(),
                    name: "bash".into(),
                    input: json("{\"command\":\"echo hi\"}"),
                },
            ]),
            Message::user(vec![Content::tool_result("call_1|fc_1", "hi", false)]),
        ],
        tools: vec![],
        max_tokens: 128,
        temperature: None,
        thinking: None,
    };

    let body = build_request_body(&req, None, true).to_value();
    let input = body["input"].as_array().unwrap();

    assert_eq!(input[0]["type"], "reasoning");
    assert_eq!(input[0]["id"], "rs_1");
    assert_eq!(input[0]["encrypted_content"], "enc");
    assert_eq!(input[0]["summary"][0]["text"], "summary");
    assert_eq!(input[1]["type"], "function_call");
    assert_eq!(input[1]["call_id"], "call_1");
    assert_eq!(input[1]["id"], "fc_1");
    assert_eq!(input[2]["type"], "function_call_output");
    assert_eq!(input[2]["call_id"], "call_1");
    assert!(input[0].get("status").is_none());
    assert!(input[1].get("status").is_none());
}

#[test]
fn input_keeps_the_order_of_texts_and_results() {
    let req = Request {
        model: "m".into(),
        system: None,
        messages: vec![
            Message::user(vec![
                Content::text("a"),
                Content::text("b"),
                Content::tool_result("c1", "boom", true),
                Content::text("c"),
            ]),
            Message::assistant(vec![
                Content::text("x"),
                Content::text("y"),
                Content::thinking(
                    "hidden",
                    ThinkingProvider::Anthropic,
                    ThinkingMetadata::anthropic_redacted("data"),
                ),
                Content::text("z"),
            ]),
        ],
        tools: vec![],
        max_tokens: 1,
        temperature: None,
        thinking: None,
    };
    let body = build_request_body(&req, None, false).to_value();
    let input = body["input"].as_array().unwrap();
    assert_eq!(input.len(), 4);
    assert_eq!(input[0]["content"], "a\nb");
    assert_eq!(input[1]["output"], "[error] boom");
    assert_eq!(input[2]["content"], "c");
    assert_eq!(input[3]["role"], "assistant");
    assert_eq!(input[3]["content"], "xyz");
    assert!(body.get("include").is_none());
}

#[test]
fn non_streaming_response_decodes_reasoning_text_and_tools() {
    let raw = json(
        "{
            \"status\": \"completed\",
            \"output\": [
                {
                    \"id\": \"rs_1\",
                    \"type\": \"reasoning\",
                    \"summary\": [{\"type\":\"summary_text\", \"text\":\"checked constraints\"}],
                    \"encrypted_content\": \"opaque\"
                },
                {
                    \"id\": \"msg_1\",
                    \"type\": \"message\",
                    \"content\": [{\"type\":\"output_text\", \"text\":\"answer\"}]
                },
                {
                    \"id\": \"fc_1\",
                    \"type\": \"function_call\",
                    \"call_id\": \"call_1\",
                    \"name\": \"bash\",
                    \"arguments\": \"{\\\"command\\\":\\\"echo hi\\\"}\"
                }
            ],
            \"usage\": {\"input_tokens\": 10, \"output_tokens\": 7}
        }",
    );

    let response = convert_response_value(&raw);

    assert_eq!(response.stop_reason, StopReason::ToolUse);
    assert_eq!(response.usage.input_tokens, 10);
    assert_eq!(response.usage.output_tokens, 7);
    assert!(matches!(
        &response.content[0],
        Content::Thinking {
            text,
            provider: ThinkingProvider::OpenAIResponses,
            metadata:
                ThinkingMetadata::OpenAIResponses {
                    item_id: Some(item_id),
                    output_index: Some(0),
                    summary_index: 0,
                    encrypted_content: Some(encrypted),
                },
        } if text == "checked constraints" && item_id == "rs_1" && encrypted == "opaque"
    ));
    assert!(matches!(&response.content[1], Content::Text { text, .. } if text == "answer"));
    assert!(matches!(
        &response.content[2],
        Content::ToolUse { id, name, input }
            if id == "call_1|fc_1" && name == "bash" && input.to_value()["command"] == "echo hi"
    ));
}

#[test]
fn buffered_body_reports_failures_first() {
    assert!(matches!(
        decode_body("{\"error\":{\"message\":\"bad key\"},\"output_text\":\"x\"}"),
        Err(ProviderError::Api { status: 500, message, retryable: false }) if message == "bad key"
    ));
    assert!(matches!(
        decode_body("{\"error\":{}}"),
        Err(ProviderError::Api { message, .. }) if message == "OpenAI Responses request failed"
    ));
    assert!(matches!(decode_body("nope"), Err(ProviderError::Decode(_))));
    let response = decode_body(
        "{\"error\":null,\"output_text\":\"plain\",\"status\":\"incomplete\",\"incomplete_details\":{\"reason\":\"max_output_tokens\"},\"usage\":{\"input_tokens\":4294967297,\"input_tokens_details\":{\"cached_tokens\":5}}}",
    )
    .unwrap();
    assert!(matches!(&response.content[0], Content::Text { text, .. } if text == "plain"));
    assert_eq!(response.stop_reason, StopReason::MaxTokens);
    assert_eq!(response.usage.input_tokens, 1);
    assert_eq!(response.usage.cache_read_input_tokens, 5);
}

#[test]
fn refusals_are_text() {
    let response = decode_body(
        "{\"output\":[{\"type\":\"message\",\"content\":[{\"type\":\"refusal\",\"refusal\":\"no\"},{\"type\":\"output_text\",\"text\":\"\"}]},{\"type\":\"unknown\"}]}",
    )
    .unwrap();
    assert_eq!(response.content.len(), 1);
    assert!(matches!(&response.content[0], Content::Text { text, .. } if text == "no"));
    assert_eq!(response.stop_reason, StopReason::EndTurn);
}

#[test]
fn streaming_reasoning_summary_emits_delta_and_final_block() {
    let mut parser = ResponsesSseParser::new();
    let mut out = VecDeque::new();

    parser.process_value(
        &json("{\"type\":\"response.reasoning_summary_text.delta\",\"item_id\":\"rs_1\",\"output_index\":0,\"summary_index\":0,\"delta\":\"checked\"}"),
        &mut out,
    );
    parser.process_value(
        &json("{\"type\":\"response.reasoning_summary_text.done\",\"item_id\":\"rs_1\",\"output_index\":0,\"summary_index\":0,\"text\":\"checked constraints\"}"),
        &mut out,
    );
    parser.process_value(
        &json("{\"type\":\"response.output_item.done\",\"output_index\":0,\"item\":{\"id\":\"rs_1\",\"type\":\"reasoning\",\"summary\":[{\"type\":\"summary_text\",\"text\":\"checked constraints\"}],\"encrypted_content\":\"opaque\"}}"),
        &mut out,
    );

    assert!(matches!(
        out.pop_front().unwrap().unwrap(),
        StreamEvent::ThinkingDelta { text } if text == "checked"
    ));
    assert!(matches!(
        out.pop_front().unwrap().unwrap(),
        StreamEvent::ThinkingBlock {
            text,
            provider: ThinkingProvider::OpenAIResponses,
            metadata:
                ThinkingMetadata::OpenAIResponses {
                    item_id: Some(item_id),
                    output_index: Some(0),
                    summary_index: 0,
                    encrypted_content: Some(encrypted),
                },
        } if text == "checked constraints" && item_id == "rs_1" && encrypted == "opaque"
    ));
    assert!(out.is_empty());
}

#[test]
fn streaming_ignores_raw_reasoning_text_events() {
    let mut parser = ResponsesSseParser::new();
    let mut out = VecDeque::new();

    parser.process_value(
        &json("{\"type\":\"response.reasoning_text.delta\",\"item_id\":\"rs_1\",\"output_index\":0,\"content_index\":0,\"delta\":\"raw chain of thought\"}"),
        &mut out,
    );

    assert!(out.is_empty());
}

#[test]
fn streaming_tool_call_emits_atomic_tool_use() {
    let mut parser = ResponsesSseParser::new();
    let mut out = VecDeque::new();

    parser.process_value(
        &json("{\"type\":\"response.output_item.added\",\"output_index\":0,\"item\":{\"id\":\"fc_1\",\"type\":\"function_call\",\"call_id\":\"call_1\",\"name\":\"bash\",\"arguments\":\"\"}}"),
        &mut out,
    );
    parser.process_value(
        &json("{\"type\":\"response.function_call_arguments.delta\",\"item_id\":\"fc_1\",\"output_index\":0,\"delta\":\"{\\\"command\\\":\"}"),
        &mut out,
    );
    parser.process_value(
        &json("{\"type\":\"response.function_call_arguments.done\",\"item_id\":\"fc_1\",\"output_index\":0,\"name\":\"bash\",\"arguments\":\"{\\\"command\\\":\\\"echo hi\\\"}\"}"),
        &mut out,
    );
    parser.process_value(
        &json("{\"type\":\"response.output_item.done\",\"output_index\":0,\"item\":{\"id\":\"fc_1\",\"type\":\"function_call\",\"call_id\":\"call_1\",\"name\":\"bash\",\"arguments\":\"{\\\"command\\\":\\\"echo hi\\\"}\"}}"),
        &mut out,
    );

    assert!(matches!(
        out.pop_front().unwrap().unwrap(),
        StreamEvent::ToolUse { id, name, input }
            if id == "call_1|fc_1" && name == "bash" && input.to_value()["command"] == "echo hi"
    ));
    assert!(out.is_empty());
}

#[test]
fn a_call_is_handed_out_once() {
    let done = json("{\"type\":\"response.output_item.done\",\"item\":{\"id\":\"fc_1\",\"type\":\"function_call\",\"call_id\":\"c\",\"name\":\"n\",\"arguments\":\"broken\"}}");
    let mut parser = ResponsesSseParser::new();
    let mut out = VecDeque::new();
    assert!(!parser.process_value(&done, &mut out));
    assert!(!parser.process_value(&done, &mut out));
    assert_eq!(out.len(), 1);
    match out.pop_front().unwrap().unwrap() {
        StreamEvent::ToolUse { input, .. } => assert_eq!(input.to_text(), "{}"),
        other => panic!("expected a call, got {other:?}"),
    }
    assert!(parser.process_value(&json("{\"type\":\"response.completed\"}"), &mut out));
    assert_eq!(out.len(), 3);
    assert!(matches!(
        out[1],
        Ok(StreamEvent::MessageDelta { stop_reason: StopReason::ToolUse })
    ));
    assert!(parser.process_value(&json("{\"type\":\"response.completed\"}"), &mut out));
    assert_eq!(out.len(), 3);
}

#[test]
fn pending_calls_and_summaries_come_out_at_the_end() {
    let mut parser = ResponsesSseParser::new();
    let mut out = VecDeque::new();
    for event in [
        "{\"type\":\"response.reasoning_summary_text.delta\",\"item_id\":\"b\",\"summary_index\":1,\"delta\":\"b1\"}",
        "{\"type\":\"response.reasoning_summary_text.delta\",\"item_id\":\"b\",\"summary_index\":0,\"delta\":\"b0\"}",
        "{\"type\":\"response.reasoning_summary_part.done\",\"item_id\":\"a\",\"summary_index\":0,\"part\":{\"text\":\"a0\"}}",
        "{\"type\":\"response.function_call_arguments.delta\",\"item_id\":\"f\",\"delta\":\"{}\"}",
    ] {
        parser.process_value(&json(event), &mut out);
    }
    out.clear();
    parser.finish(&mut out);
    let texts: Vec<String> = out
        .iter()
        .filter_map(|item| match item {
            Ok(StreamEvent::ThinkingBlock { text, .. }) => Some(text.clone()),
            _ => None,
        })
        .collect();
    assert_eq!(texts, ["a0", "b0", "b1"]);
    assert!(matches!(&out[3], Ok(StreamEvent::ToolUse { id, .. }) if id == "|f"));
    assert!(matches!(out.back(), Some(Ok(StreamEvent::Done))));
    let before = out.len();
    parser.finish(&mut out);
    assert_eq!(out.len(), before);
}

#[test]
fn tool_use_ids_split_where_they_were_joined() {
    assert_eq!(combined_tool_use_id("call", "item"), "call|item");
    assert_eq!(combined_tool_use_id("call", ""), "call");
    assert_eq!(
        split_tool_use_id("call|item|x"),
        ("call".to_string(), Some("item|x".to_string()))
    );
    assert_eq!(split_tool_use_id("call"), ("call".to_string(), None));
    assert_eq!(split_tool_use_id("call|"), ("call".to_string(), None));
}

fn request(thinking: Option<ThinkingConfig>) -> Request {
    Request {
        model: "gpt-5".into(),
        system: Some(vec![SystemBlock::text("be brief")]),
        messages: vec![Message::user_text("hi")],
        tools: vec![],
        max_tokens: 64,
        temperature: None,
        thinking,
    }
}

fn effective_body(req: &Request, instance: Option<&ReasoningConfig>) -> Value {
    build_request_body(req, effective_reasoning(req, instance).as_ref(), false).to_value()
}

#[test]
fn openai_responses_effort_high_emits_wire_reasoning_effort_high() {
    let req = request(Some(ThinkingConfig::Effort(ThinkingEffort::High)));
    let body = effective_body(&req, None);
    assert_eq!(body["reasoning"]["effort"], "high");
    assert_eq!(body["reasoning"]["summary"], "auto");
}

#[test]
fn per_call_effort_overrides_instance_default() {
    let instance = ReasoningConfig {
        effort: OpenAIEffort::Low,
        summary: OpenAISummary::Detailed,
    };
    let req = request(Some(ThinkingConfig::Effort(ThinkingEffort::High)));
    let body = effective_body(&req, Some(&instance));
    assert_eq!(body["reasoning"]["effort"], "high");
    assert_eq!(body["reasoning"]["summary"], "detailed");
}

#[test]
fn disabled_drops_reasoning_block_even_with_instance_default() {
    let instance = ReasoningConfig {
        effort: OpenAIEffort::High,
        summary: OpenAISummary::Auto,
    };
    let req = request(Some(ThinkingConfig::Disabled));
    let body = effective_body(&req, Some(&instance));
    assert!(
        body.get("reasoning").is_none(),
        "Disabled must drop reasoning entirely; got {body:?}"
    );
}

#[test]
fn openai_responses_budget_falls_back_to_instance_silently() {
    let instance = ReasoningConfig {
        effort: OpenAIEffort::Medium,
        summary: OpenAISummary::Auto,
    };
    let req = request(Some(ThinkingConfig::Budget(8192)));
    let body = effective_body(&req, Some(&instance));
    assert_eq!(body["reasoning"]["effort"], "medium");
    assert_eq!(body["reasoning"]["summary"], "auto");
}

#[test]
fn no_thinking_falls_through_to_instance() {
    let instance = ReasoningConfig {
        effort: OpenAIEffort::Low,
        summary: OpenAISummary::Auto,
    };
    let req = request(None);
    let body = effective_body(&req, Some(&instance));
    assert_eq!(body["reasoning"]["effort"], "low");
}

#[test]
fn openai_responses_other_effort_passes_through_verbatim() {
    let req = request(Some(ThinkingConfig::Effort(ThinkingEffort::Other(
        "xhigh".into(),
    ))));
    let body = effective_body(&req, None);
    assert_eq!(body["reasoning"]["effort"], "xhigh");
}

#[test]
fn endpoint_requests_differ_in_stream_and_accept() {
    let provider = OpenAIResponses::new("key")
        .with_base_url("http://localhost:9///")
        .with_reasoning("low".into(), "concise".into())
        .without_encrypted_reasoning();
    assert_eq!(provider.responses_url(), "http://localhost:9/responses");
    let req = request(None);
    let whole = provider.complete_request(&req);
    assert_eq!(whole.bearer, "key");
    assert_eq!(whole.url, "http://localhost:9/responses");
    assert_eq!(whole.headers.len(), 1);
    assert_eq!(whole.body.to_value()["stream"], false);
    assert_eq!(whole.body.to_value()["reasoning"]["summary"], "concise");
    assert!(whole.body.to_value().get("include").is_none());
    let stream = provider.stream_request(&req);
    assert_eq!(stream.body.to_value()["stream"], true);
    assert!(stream
        .headers
        .contains(&("accept".to_string(), "text/event-stream".to_string())));
}

#[test]
fn the_end_hands_out_what_is_pending_and_comes_once() {
    let mut parser = ResponsesSseParser::new();
    let mut out = VecDeque::new();
    parser.process_value(
        &json("{\"type\":\"response.reasoning_summary_text.delta\",\"item_id\":\"rs_1\",\"output_index\":0,\"summary_index\":0,\"delta\":\"so far\"}"),
        &mut out,
    );
    out.clear();

    parser.emit_terminal(Some("incomplete"), Some("max_output_tokens"), &mut out);
    let events: Vec<StreamEvent> = out.drain(..).map(Result::unwrap).collect();
    assert_eq!(events.len(), 4);
    assert!(matches!(&events[0], StreamEvent::ThinkingBlock { text, .. } if text == "so far"));
    assert!(matches!(&events[1], StreamEvent::Usage(_)));
    assert!(matches!(
        &events[2],
        StreamEvent::MessageDelta { stop_reason: StopReason::MaxTokens }
    ));
    assert!(matches!(&events[3], StreamEvent::Done));

    parser.emit_terminal(None, None, &mut out);
    assert!(out.is_empty());
}
