//! What a value stands for holds everything that the value holds: contracts
//! that speak of views speak of the whole value.
use crate::agent::{
    AgentError, AgentErrorView, AgentResult, Pull, RunAction, RunActionView, RunReply,
    RunReplyView, RunSettings,
};
use crate::error::{ProviderError, ProviderErrorView};
use crate::guard::{AgentSnapshot, GuardEval, GuardEvalView};
use crate::json::{fields_view, fields_view_push, Json, JsonNumber, JsonView};
use crate::message::{
    optional_text, Content, ContentView, Message, ThinkingMetadata, ThinkingMetadataView,
};
use crate::prompt_policy::AppliedPromptPolicy;
use crate::provider::{Request, Response, SystemBlock, ToolDefinition};
use crate::steering::queued_blocks;
use crate::stream::{StreamEvent, StreamEventView};
use crate::text::views;
use crate::tool::{ToolCall, ToolOutput, ToolSpec};
use vstd::prelude::*;

verus! {

/// The views of several values are the views of each, in their order.
pub proof fn several_are_seen_each<T: View>(items: Seq<T>)
    ensures
        views(items).len() == items.len(),
        forall|i: int| 0 <= i < items.len() ==> #[trigger] views(items)[i] == items[i]@,
{
}

/// A block is seen with its text, its ids, its input and its marks.
pub proof fn blocks_are_seen_whole(block: Content)
    ensures
        match (block, block@) {
            (
                Content::Text { text, cache_control },
                ContentView::Text { text: seen, cache_control: mark },
            ) => seen == text@ && mark == cache_control,
            (
                Content::Thinking { text, provider, metadata },
                ContentView::Thinking { text: seen, provider: owner, metadata: data },
            ) => seen == text@ && owner == provider && data == metadata@,
            (
                Content::ToolUse { id, name, input },
                ContentView::ToolUse { id: seen, name: tool, input: given },
            ) => seen == id@ && tool == name@ && given == input@,
            (
                Content::ToolResult { tool_use_id, content, is_error, cache_control },
                ContentView::ToolResult {
                    tool_use_id: id,
                    content: text,
                    is_error: failed,
                    cache_control: mark,
                },
            ) => id == tool_use_id@ && text == content@ && failed == is_error && mark
                == cache_control,
            _ => false,
        },
{
}

/// What a provider needs to accept a thinking block back is seen whole.
pub proof fn metadata_is_seen_whole(metadata: ThinkingMetadata)
    ensures
        match (metadata, metadata@) {
            (
                ThinkingMetadata::Anthropic { signature },
                ThinkingMetadataView::Anthropic { signature: seen },
            ) => seen == optional_text(signature),
            (
                ThinkingMetadata::AnthropicRedacted { data },
                ThinkingMetadataView::AnthropicRedacted { data: seen },
            ) => seen == data@,
            (
                ThinkingMetadata::OpenAIResponses {
                    item_id,
                    output_index,
                    summary_index,
                    encrypted_content,
                },
                ThinkingMetadataView::OpenAIResponses {
                    item_id: id,
                    output_index: output,
                    summary_index: place,
                    encrypted_content: encrypted,
                },
            ) => id == optional_text(item_id) && output == output_index && place == summary_index
                && encrypted == optional_text(encrypted_content),
            _ => false,
        },
        forall|text: String| #[trigger] optional_text(Some(text)) == Some(text@),
        optional_text(None) is None,
{
}

/// A message is seen with its speaker and all its blocks in order.
pub proof fn messages_are_seen_whole(message: Message)
    ensures
        message@.role == message.role,
        message@.content.len() == message.content@.len(),
        forall|i: int|
            0 <= i < message.content@.len() ==> #[trigger] message@.content[i]
                == message.content@[i]@,
{
}

/// An event is seen with everything that it tells.
pub proof fn events_are_seen_whole(event: StreamEvent)
    ensures
        match (event, event@) {
            (StreamEvent::ContentDelta(text), StreamEventView::ContentDelta(seen)) => seen == text@,
            (
                StreamEvent::ThinkingDelta { text },
                StreamEventView::ThinkingDelta { text: seen },
            ) => seen == text@,
            (
                StreamEvent::ThinkingBlock { text, provider, metadata },
                StreamEventView::ThinkingBlock { text: seen, provider: owner, metadata: data },
            ) => seen == text@ && owner == provider && data == metadata@,
            (
                StreamEvent::ToolUse { id, name, input },
                StreamEventView::ToolUse { id: seen, name: tool, input: given },
            ) => seen == id@ && tool == name@ && given == input@,
            (
                StreamEvent::ToolCallPending { id, name, input, class },
                StreamEventView::ToolCallPending {
                    id: seen,
                    name: tool,
                    input: given,
                    class: kind,
                },
            ) => seen == id@ && tool == name@ && given == input@ && kind == class,
            (
                StreamEvent::MessageDelta { stop_reason },
                StreamEventView::MessageDelta { stop_reason: seen },
            ) => seen == stop_reason,
            (StreamEvent::Usage(usage), StreamEventView::Usage(seen)) => seen == usage,
            (StreamEvent::Done, StreamEventView::Done) => true,
            (
                StreamEvent::TurnStarted { turn_id },
                StreamEventView::TurnStarted { turn_id: seen },
            ) => seen == turn_id@,
            (
                StreamEvent::ModeChanged { from, to, authority },
                StreamEventView::ModeChanged { from: a, to: b, authority: who },
            ) => a == from@ && b == to@ && who == authority,
            (
                StreamEvent::ModeChangeRequested { from, to, authority },
                StreamEventView::ModeChangeRequested { from: a, to: b, authority: who },
            ) => a == from@ && b == to@ && who == authority,
            (
                StreamEvent::ContinuationInjected { guard_name, iteration },
                StreamEventView::ContinuationInjected { guard_name: seen, iteration: n },
            ) => seen == guard_name@ && n == iteration,
            (
                StreamEvent::GuardAborted { guard_name, reason },
                StreamEventView::GuardAborted { guard_name: seen, reason: why },
            ) => seen == guard_name@ && why == reason@,
            (
                StreamEvent::PolicyInstalled { name },
                StreamEventView::PolicyInstalled { name: seen },
            ) => seen == name@,
            (
                StreamEvent::PolicyRemoved { name },
                StreamEventView::PolicyRemoved { name: seen },
            ) => seen == name@,
            (
                StreamEvent::PolicyApplied { name, precedence },
                StreamEventView::PolicyApplied { name: seen, precedence: n },
            ) => seen == name@ && n == precedence,
            _ => false,
        },
{
}

/// A failure of the provider is seen with everything that it says.
pub proof fn failures_are_seen_whole(error: ProviderError)
    ensures
        match (error, error@) {
            (
                ProviderError::Api { status, message, retryable },
                ProviderErrorView::Api { status: s, message: m, retryable: r },
            ) => s == status && m == message@ && r == retryable,
            (
                ProviderError::RateLimit { retry_after_ms },
                ProviderErrorView::RateLimit { retry_after_ms: ms },
            ) => ms == retry_after_ms,
            (
                ProviderError::Overloaded { retry_after_ms },
                ProviderErrorView::Overloaded { retry_after_ms: ms },
            ) => ms == retry_after_ms,
            (ProviderError::Http(text), ProviderErrorView::Http(seen)) => seen == text@,
            (ProviderError::Decode(text), ProviderErrorView::Decode(seen)) => seen == text@,
            (ProviderError::Other(text), ProviderErrorView::Other(seen)) => seen == text@,
            _ => false,
        },
{
}

/// Tools, calls and outputs are seen whole.
pub proof fn tools_are_seen_whole(tool: ToolSpec, call: ToolCall, output: ToolOutput)
    ensures
        tool@.name == tool.name@ && tool@.description == tool.description@ && tool@.input_schema
            == tool.input_schema@ && tool@.class == tool.class && tool@.recursive
            == tool.recursive,
        call@.id == call.id@ && call@.name == call.name@ && call@.input == call.input@,
        output@.content == output.content@ && output@.is_error == output.is_error,
{
}

/// Requests and answers are seen whole.
pub proof fn requests_are_seen_whole(
    request: Request,
    response: Response,
    definition: ToolDefinition,
    block: SystemBlock,
)
    ensures
        request@.model == request.model@ && request@.messages == views(request.messages@),
        request@.tools == views(request.tools@) && request@.max_tokens == request.max_tokens,
        request@.temperature == request.temperature && request@.thinking == request.thinking,
        match request.system {
            Some(blocks) => request@.system == Some(views(blocks@)),
            None => request@.system is None,
        },
        response@.content == views(response.content@) && response@.stop_reason
            == response.stop_reason && response@.usage == response.usage,
        definition@.name == definition.name@ && definition@.description
            == definition.description@ && definition@.input_schema == definition.input_schema@
            && definition@.cache_control == definition.cache_control,
        block@.text == block.text@ && block@.cache_control == block.cache_control,
{
}

/// What a driver reports is seen as it reports it, and what a run hands out as
/// it hands it out.
pub proof fn replies_are_seen_whole(reply: RunReply, action: RunAction, result: AgentResult)
    ensures
        match reply {
            RunReply::TurnBegun(id) => reply@ == RunReplyView::TurnBegun(id@),
            RunReply::Sent { delivered } => reply@ == (RunReplyView::Sent { delivered }),
            RunReply::CancelChecked { cancelled } => reply@ == (RunReplyView::CancelChecked {
                cancelled,
            }),
            RunReply::Policies(policies) => reply@ == RunReplyView::Policies(views(policies@)),
            RunReply::Answered(Ok(response)) => reply@ == RunReplyView::Answered(response@),
            RunReply::Answered(Err(error)) => reply@ == RunReplyView::AnswerFailed(error@),
            RunReply::Opened(Ok(_)) => reply@ is Opened,
            RunReply::Opened(Err(error)) => reply@ == RunReplyView::OpenFailed(error@),
            RunReply::Pulled(Pull::Cancelled) => reply@ is PullCancelled,
            RunReply::Pulled(Pull::Closed) => reply@ is PulledEnd,
            RunReply::Pulled(Pull::Item(Ok(event))) => reply@ == RunReplyView::PulledEvent(event@),
            RunReply::Pulled(Pull::Item(Err(error))) => reply@ == RunReplyView::PulledFailure(
                error@,
            ),
            RunReply::Traced => reply@ is Traced,
            RunReply::ToolsDone { results, queued } => reply@ == (RunReplyView::ToolsDone {
                results: views(results@),
                queued: queued_blocks(queued@),
            }),
            RunReply::Guarded { eval, queued } => reply@ == (RunReplyView::Guarded {
                eval: eval@,
                queued: queued_blocks(queued@),
            }),
        },
        match action {
            RunAction::Emit(event) => action@ == RunActionView::Emit(event@),
            RunAction::Trace(event) => action@ == RunActionView::Trace(event@),
            RunAction::Complete(request) => action@ == RunActionView::Complete(request@),
            RunAction::Open(request) => action@ == RunActionView::Open(request@),
            RunAction::RunTools(calls) => action@ == RunActionView::RunTools(views(calls@)),
            RunAction::AskGuards(snapshot) => action@ == RunActionView::AskGuards(snapshot@),
            RunAction::Finish(Ok(done)) => action@ == RunActionView::Finish(Ok(done@)),
            RunAction::Finish(Err(error)) => action@ == RunActionView::Finish(Err(error@)),
            RunAction::BeginTurn => action@ is BeginTurn,
            RunAction::CheckCancelled => action@ is CheckCancelled,
            RunAction::GatherPolicies => action@ is GatherPolicies,
            RunAction::Pull => action@ is Pull,
        },
        result@.new_messages == views(result.new_messages@) && result@.text == result.text@
            && result@.usage == result.usage && result@.stop_reason == result.stop_reason,
{
}

/// A JSON value is seen with everything in it; of two fields with one name the
/// later is seen.
pub proof fn json_is_seen_whole(
    items: Vec<Json>,
    fields: Seq<(String, Json)>,
    key: String,
    value: Json,
    flag: bool,
    text: String,
    positive: u64,
    number: i64,
)
    ensures
        Json::Null@ == JsonView::Null,
        Json::Bool(flag)@ == JsonView::Bool(flag),
        Json::Text(text)@ == JsonView::Text(text@),
        Json::Number(JsonNumber::Unsigned(positive))@ == JsonView::Int(positive as int),
        Json::Number(JsonNumber::Signed(number))@ == JsonView::Int(number as int),
        match Json::Array(items)@ {
            JsonView::Array(seen) => seen.len() == items@.len() && forall|i: int|
                0 <= i < items@.len() ==> #[trigger] seen[i] == items@[i]@,
            _ => false,
        },
        ({
            let seen = fields_view(fields.push((key, value)));
            &&& seen.contains_key(key@) && seen[key@] == value@
            &&& forall|other: Seq<char>|
                other != key@ ==> (#[trigger] seen.contains_key(other)
                    == fields_view(fields).contains_key(other)) && (
                seen.contains_key(other) ==> seen[other] == fields_view(
                    fields,
                )[other])
        }),
{
    fields_view_push(fields, (key, value));
}

/// What guards say and see, policies that go into a request, errors and settings
/// of a run are seen whole.
pub proof fn runs_are_seen_whole(
    eval: GuardEval,
    snapshot: AgentSnapshot,
    policy: AppliedPromptPolicy,
    error: AgentError,
    settings: RunSettings,
)
    ensures
        match eval {
            GuardEval::Continue { guard_name, prompt, iteration } => eval@ == (
            GuardEvalView::Continue { guard_name: guard_name@, prompt: prompt@, iteration }),
            GuardEval::Abort { guard_name, reason } => eval@ == (GuardEvalView::Abort {
                guard_name: guard_name@,
                reason: reason@,
            }),
            GuardEval::Stop => eval@ is Stop,
        },
        snapshot@.turn_count == snapshot.turn_count,
        snapshot@.recent_tool_calls == views(snapshot.recent_tool_calls@),
        match snapshot.last_assistant_message {
            Some(message) => snapshot@.last_assistant_message == Some(message@),
            None => snapshot@.last_assistant_message is None,
        },
        policy@.id == policy.id && policy@.name == policy.name@ && policy@.content
            == policy.content@ && policy@.precedence == policy.precedence,
        match error {
            AgentError::Cancelled { partial } => error@ == (AgentErrorView::Cancelled {
                partial: partial@,
            }) && error@.partial() == partial@,
            AgentError::Provider { source, partial } => error@ == (AgentErrorView::Provider {
                source: source@,
                partial: partial@,
            }) && error@.partial() == partial@,
            AgentError::MaxTurnsReached { turns, partial } => error@ == (
            AgentErrorView::MaxTurnsReached { turns, partial: partial@ }) && error@.partial()
                == partial@,
        },
        settings@.model == settings.model@ && settings@.tools == views(settings.tools@),
        settings@.max_turns == settings.max_turns && settings@.max_tokens == settings.max_tokens,
        settings@.temperature == settings.temperature && settings@.thinking == settings.thinking,
        settings@.streaming == settings.streaming,
        match settings.system {
            Some(blocks) => settings@.system == Some(views(blocks@)),
            None => settings@.system is None,
        },
{
}

} // verus!
