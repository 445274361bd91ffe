use tkach::agent::result_or_cancelled;
use tkach::{
    AgentError, AgentResult, CacheControl, CacheTtl, Content, Message, ProviderError, Role,
    StopReason, SystemBlock, ThinkingMetadata, Usage,
};

#[test]
fn system_blocks_carry_their_breakpoints() {
    assert_eq!(SystemBlock::text("a").cache_control, None);
    assert_eq!(
        SystemBlock::cached("a").cache_control,
        Some(CacheControl { ttl: CacheTtl::FiveMinutes })
    );
    assert_eq!(
        SystemBlock::cached_1h("a").cache_control,
        Some(CacheControl { ttl: CacheTtl::OneHour })
    );
    assert_eq!(SystemBlock::cached("text").text, "text");
}

#[test]
fn content_constructors_fill_their_fields() {
    assert!(matches!(
        Content::text_cached("x"),
        Content::Text { text, cache_control: Some(CacheControl { ttl: CacheTtl::FiveMinutes }) }
            if text == "x"
    ));
    assert!(matches!(
        ThinkingMetadata::anthropic(Some("sig".into())),
        ThinkingMetadata::Anthropic { signature: Some(s) } if s == "sig"
    ));
    assert!(matches!(
        Content::tool_result("id", "out", true),
        Content::ToolResult { tool_use_id, content, is_error: true, cache_control: None }
            if tool_use_id == "id" && content == "out"
    ));
    let message = Message::assistant(vec![Content::text("hi")]);
    assert_eq!(message.role, Role::Assistant);
    assert_eq!(message.clone().content.len(), 1);
    assert_eq!(Message::user_text("q").role, Role::User);
}

fn empty_result(stop_reason: StopReason) -> AgentResult {
    AgentResult {
        new_messages: Vec::new(),
        text: String::new(),
        usage: Usage::default(),
        stop_reason,
    }
}

#[test]
fn a_lost_run_counts_as_cancelled() {
    match result_or_cancelled(None) {
        Err(AgentError::Cancelled { partial }) => {
            assert_eq!(partial.stop_reason, StopReason::Cancelled);
            assert_eq!(partial.usage, Usage::default());
        }
        other => panic!("expected a cancelled run, got {other:?}"),
    }
    assert!(result_or_cancelled(Some(Ok(empty_result(StopReason::EndTurn)))).is_ok());
}

#[test]
fn errors_have_texts() {
    let source = || ProviderError::Api {
        status: 503,
        message: "down".into(),
        retryable: true,
    };
    assert_eq!(source().message(), "API error 503: down");
    assert_eq!(ProviderError::Http("reset".into()).message(), "HTTP error: reset");
    assert_eq!(ProviderError::Decode("eof".into()).message(), "invalid JSON: eof");
    assert_eq!(ProviderError::RateLimit { retry_after_ms: None }.message(), "rate limited");
    assert_eq!(
        ProviderError::Overloaded { retry_after_ms: Some(1) }.message(),
        "provider overloaded"
    );
    assert_eq!(ProviderError::Other("odd".into()).message(), "odd");
    let partial = empty_result(StopReason::Cancelled);
    assert_eq!(
        AgentError::Provider { source: source(), partial: partial.clone() }.message(),
        "provider error: API error 503: down"
    );
    assert_eq!(
        AgentError::Cancelled { partial: partial.clone() }.message(),
        "agent run cancelled"
    );
    assert_eq!(
        AgentError::MaxTurnsReached { turns: 12, partial }.message(),
        "max turns reached (12)"
    );
}
