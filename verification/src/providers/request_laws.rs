//! What a request on the Responses wire says of the conversation, the tools
//! and the settings that it was made of.
use crate::json::{has, json_text, lacks, number_view, JsonView};
use crate::message::{ContentView, MessageView, Role, ThinkingMetadataView, ThinkingProvider};
use crate::provider::{
    RequestView, SystemBlockView, ThinkingConfig, ThinkingEffort, ToolDefinitionView,
};
use crate::providers::effort::{EffortView, SummaryView};
use crate::providers::http::HttpRequestView;
use crate::providers::input::{
    assistant_gathered, block_texts, call_item, input_items, message_items, output_item,
    reasoning_item, split_id, text_item, user_gathered, Gathered,
};
use crate::providers::openai_codex::{CodexCredentials, OpenAICodexView};
use crate::providers::openai_responses::OpenAIResponsesView;
use crate::text::{first_index, first_index_least, joined, trailing_is_gone, without_trailing};
use vstd::prelude::*;

verus! {

proof fn body_keys_apart()
    ensures
        "model"@.len() == 5 && "model"@[0] == 'm',
        "store"@.len() == 5 && "store"@[0] == 's',
        "input"@.len() == 5 && "input"@[0] == 'i',
        "tools"@.len() == 5 && "tools"@[0] == 't',
        "stream"@.len() == 6,
        "max_output_tokens"@.len() == 17,
        "instructions"@.len() == 12,
        "temperature"@.len() == 11 && "temperature"@[1] == 'e',
        "tool_choice"@.len() == 11 && "tool_choice"@[1] == 'o',
        "reasoning"@.len() == 9,
        "include"@.len() == 7,
        "text"@.len() == 4,
        "parallel_tool_calls"@.len() == 19,
{
    reveal_strlit("model");
    reveal_strlit("store");
    reveal_strlit("input");
    reveal_strlit("tools");
    reveal_strlit("stream");
    reveal_strlit("max_output_tokens");
    reveal_strlit("instructions");
    reveal_strlit("temperature");
    reveal_strlit("tool_choice");
    reveal_strlit("reasoning");
    reveal_strlit("include");
    reveal_strlit("text");
    reveal_strlit("parallel_tool_calls");
}

proof fn item_keys_apart()
    ensures
        "type"@.len() == 4 && "type"@[0] == 't' && "type"@[1] == 'y',
        "text"@.len() == 4 && "text"@[0] == 't' && "text"@[1] == 'e',
        "name"@.len() == 4 && "name"@[0] == 'n',
        "role"@.len() == 4 && "role"@[0] == 'r',
        "id"@.len() == 2,
        "call_id"@.len() == 7 && "call_id"@[0] == 'c' && "call_id"@[1] == 'a',
        "content"@.len() == 7 && "content"@[0] == 'c' && "content"@[1] == 'o',
        "summary"@.len() == 7 && "summary"@[0] == 's',
        "arguments"@.len() == 9,
        "output"@.len() == 6 && "output"@[0] == 'o',
        "strict"@.len() == 6 && "strict"@[0] == 's',
        "effort"@.len() == 6 && "effort"@[0] == 'e',
        "description"@.len() == 11,
        "parameters"@.len() == 10,
        "encrypted_content"@.len() == 17,
{
    reveal_strlit("type");
    reveal_strlit("text");
    reveal_strlit("name");
    reveal_strlit("role");
    reveal_strlit("id");
    reveal_strlit("call_id");
    reveal_strlit("content");
    reveal_strlit("summary");
    reveal_strlit("arguments");
    reveal_strlit("output");
    reveal_strlit("strict");
    reveal_strlit("effort");
    reveal_strlit("description");
    reveal_strlit("parameters");
    reveal_strlit("encrypted_content");
}

/// Whether a body tells the model of tools: each in its place with its name,
/// its description and its input schema, the choice left to the model and
/// parallel calls allowed. Without tools it says nothing of them.
pub open spec fn tells_of_tools(
    body: Map<Seq<char>, JsonView>,
    tools: Seq<ToolDefinitionView>,
) -> bool {
    if tools.len() == 0 {
        &&& !body.contains_key("tools"@)
        &&& !body.contains_key("tool_choice"@)
        &&& !body.contains_key("parallel_tool_calls"@)
    } else {
        &&& body.contains_key("tools"@)
        &&& match body["tools"@] {
            JsonView::Array(items) => {
                &&& items.len() == tools.len()
                &&& forall|i: int|
                    0 <= i < tools.len() ==> {
                        &&& has(#[trigger] items[i], "type"@, JsonView::Text("function"@))
                        &&& has(items[i], "name"@, JsonView::Text(tools[i].name))
                        &&& has(items[i], "description"@, JsonView::Text(tools[i].description))
                        &&& has(items[i], "parameters"@, tools[i].input_schema)
                        &&& has(items[i], "strict"@, JsonView::Null)
                    }
            },
            _ => false,
        }
        &&& body.contains_key("tool_choice"@)
        &&& body["tool_choice"@] == JsonView::Text("auto"@)
        &&& body.contains_key("parallel_tool_calls"@)
        &&& body["parallel_tool_calls"@] == JsonView::Bool(true)
    }
}

/// On either endpoint the model is told of every tool of a request, in their
/// order, with the schema of its arguments.
pub proof fn tools_reach_the_model<C>(
    responses: OpenAIResponsesView,
    codex: OpenAICodexView<C>,
    request: RequestView,
)
    ensures
        tells_of_tools(responses.body(request), request.tools),
        tells_of_tools(codex.body(request), request.tools),
{
    body_keys_apart();
    item_keys_apart();
}

/// Whether a body carries the instructions of a request: its system blocks
/// with a blank line between them, and nothing where that is empty.
pub open spec fn carries_instructions(
    body: Map<Seq<char>, JsonView>,
    system: Option<Seq<SystemBlockView>>,
) -> bool {
    let text = match system {
        Some(blocks) => joined(
            Seq::new(blocks.len(), |i: int| blocks[i].text),
            "\n\n"@,
        ),
        None => Seq::empty(),
    };
    if text.len() > 0 {
        body.contains_key("instructions"@) && body["instructions"@] == JsonView::Text(text)
    } else {
        !body.contains_key("instructions"@)
    }
}

/// Whether a body carries what every request has: the model, the conversation,
/// that nothing is stored, the instructions and the temperature.
pub open spec fn carries_the_request(
    body: Map<Seq<char>, JsonView>,
    request: RequestView,
) -> bool {
    &&& body.contains_key("model"@) && body["model"@] == JsonView::Text(request.model)
    &&& body.contains_key("input"@) && body["input"@] == JsonView::Array(
        input_items(request.messages),
    )
    &&& body.contains_key("store"@) && body["store"@] == JsonView::Bool(false)
    &&& carries_instructions(body, request.system)
    &&& match request.temperature {
        Some(number) => body.contains_key("temperature"@) && body["temperature"@] == number_view(
            number,
        ),
        None => !body.contains_key("temperature"@),
    }
}

/// Whether a body asks for the encrypted reasoning, and for nothing else.
pub open spec fn includes_encrypted(body: Map<Seq<char>, JsonView>) -> bool {
    body.contains_key("include"@) && body["include"@] == JsonView::Array(
        seq![JsonView::Text("reasoning.encrypted_content"@)],
    )
}

/// A request carries what it was made of on either endpoint. The public one
/// also limits the output, and includes the encrypted reasoning exactly where
/// it is configured to; the Codex one always does, and has the model answer
/// briefly.
pub proof fn requests_are_carried<C>(
    responses: OpenAIResponsesView,
    codex: OpenAICodexView<C>,
    request: RequestView,
)
    ensures
        carries_the_request(responses.body(request), request),
        carries_the_request(codex.body(request), request),
        responses.body(request).contains_key("max_output_tokens"@),
        responses.body(request)["max_output_tokens"@] == JsonView::Int(request.max_tokens as int),
        if responses.include_encrypted_reasoning {
            includes_encrypted(responses.body(request))
        } else {
            !responses.body(request).contains_key("include"@)
        },
        includes_encrypted(codex.body(request)),
        codex.body(request).contains_key("text"@),
        has(codex.body(request)["text"@], "verbosity"@, JsonView::Text("low"@)),
        !responses.body(request).contains_key("text"@),
        !codex.body(request).contains_key("max_output_tokens"@),
{
    body_keys_apart();
    match request.system {
        Some(blocks) => {
            assert(block_texts(blocks) =~= Seq::new(
                blocks.len(),
                |i: int| blocks[i].text,
            ));
        },
        None => {},
    }
}

/// A request says nothing that it was not made of: these are all the fields that
/// its body can have.
pub proof fn requests_say_nothing_else<C>(
    responses: OpenAIResponsesView,
    codex: OpenAICodexView<C>,
    request: RequestView,
    key: Seq<char>,
)
    requires
        key != "model"@,
        key != "store"@,
        key != "stream"@,
        key != "input"@,
        key != "instructions"@,
        key != "temperature"@,
        key != "reasoning"@,
        key != "include"@,
        key != "tools"@,
        key != "tool_choice"@,
        key != "parallel_tool_calls"@,
    ensures
        key != "max_output_tokens"@ ==> !responses.body(request).contains_key(key),
        key != "text"@ ==> !codex.body(request).contains_key(key),
{
}

/// What goes on the wire for an effort that a call asks for.
pub open spec fn effort_on_the_wire(effort: ThinkingEffort) -> Seq<char> {
    match effort {
        ThinkingEffort::Low => "low"@,
        ThinkingEffort::Medium => "medium"@,
        ThinkingEffort::High => "high"@,
        ThinkingEffort::Other(name) => EffortView::named(name@).wire(),
    }
}

/// Whether a body asks for reasoning with an effort and a summary, where they
/// are given; where neither is, it says nothing of reasoning.
pub open spec fn asks_for_reasoning(
    body: Map<Seq<char>, JsonView>,
    effort: Option<Seq<char>>,
    summary: Option<Seq<char>>,
) -> bool {
    if effort is None && summary is None {
        !body.contains_key("reasoning"@)
    } else {
        &&& body.contains_key("reasoning"@)
        &&& match effort {
            Some(text) => has(body["reasoning"@], "effort"@, JsonView::Text(text)),
            None => lacks(body["reasoning"@], "effort"@),
        }
        &&& match summary {
            Some(text) => has(body["reasoning"@], "summary"@, JsonView::Text(text)),
            None => lacks(body["reasoning"@], "summary"@),
        }
    }
}

/// The public endpoint asks for reasoning as the call says, and else as it is
/// configured: an effort of the call goes with the configured summary or the
/// automatic one, and a disabled call asks for none.
pub proof fn responses_reasoning_on_the_wire(
    provider: OpenAIResponsesView,
    request: RequestView,
)
    ensures
        ({
            let body = provider.body(request);
            match request.thinking {
                Some(ThinkingConfig::Disabled) => asks_for_reasoning(body, None, None),
                Some(ThinkingConfig::Effort(effort)) => asks_for_reasoning(
                    body,
                    Some(effort_on_the_wire(effort)),
                    Some(
                        match provider.reasoning {
                            Some(config) => config.summary.wire(),
                            None => "auto"@,
                        },
                    ),
                ),
                Some(ThinkingConfig::Budget(_)) | None => match provider.reasoning {
                    Some(config) => asks_for_reasoning(
                        body,
                        Some(config.effort.wire()),
                        Some(config.summary.wire()),
                    ),
                    None => asks_for_reasoning(body, None, None),
                },
            }
        }),
{
    body_keys_apart();
    item_keys_apart();
}

/// What goes on the wire for an optional effort.
pub open spec fn wire_effort(effort: Option<EffortView>) -> Option<Seq<char>> {
    match effort {
        Some(e) => Some(e.wire()),
        None => None,
    }
}

/// What goes on the wire for an optional summary level.
pub open spec fn wire_summary(summary: Option<SummaryView>) -> Option<Seq<char>> {
    match summary {
        Some(s) => Some(s.wire()),
        None => None,
    }
}

/// The Codex endpoint asks for reasoning as the call says, and else as it is
/// configured: an effort of the call goes with the configured summary or the
/// automatic one, and a disabled call asks for none.
pub proof fn codex_reasoning_on_the_wire<C>(provider: OpenAICodexView<C>, request: RequestView)
    ensures
        ({
            let body = provider.body(request);
            match request.thinking {
                Some(ThinkingConfig::Disabled) => asks_for_reasoning(body, None, None),
                Some(ThinkingConfig::Effort(effort)) => asks_for_reasoning(
                    body,
                    Some(effort_on_the_wire(effort)),
                    match provider.reasoning_summary {
                        Some(summary) => Some(summary.wire()),
                        None => Some("auto"@),
                    },
                ),
                Some(ThinkingConfig::Budget(_)) | None => asks_for_reasoning(
                    body,
                    wire_effort(provider.reasoning_effort),
                    wire_summary(provider.reasoning_summary),
                ),
            }
        }),
{
    body_keys_apart();
    item_keys_apart();
}

/// Where a root leads: the root without the slashes at its end, and a path
/// behind it.
pub open spec fn leads_to(url: Seq<char>, root: Seq<char>, path: Seq<char>) -> bool {
    &&& url.len() >= path.len()
    &&& url.skip(url.len() - path.len()) == path
    &&& ({
        let stem = url.take(url.len() - path.len());
        &&& stem.is_prefix_of(root)
        &&& stem.len() > 0 ==> stem.last() != '/'
        &&& forall|i: int| stem.len() <= i < root.len() ==> #[trigger] root[i] == '/'
    })
}

proof fn stem_and_path(root: Seq<char>, path: Seq<char>)
    ensures
        leads_to(without_trailing(root, '/') + path, root, path),
{
    let stem = without_trailing(root, '/');
    trailing_is_gone(root, '/');
    assert((stem + path).skip(stem.len() as int) =~= path);
    assert((stem + path).take(stem.len() as int) =~= stem);
}

/// Where requests of the public endpoint go, and with what: the key as bearer
/// token, JSON as what is sent, and an event stream as what is accepted and
/// asked for exactly where the answer is streamed.
pub proof fn responses_requests_are_addressed(
    provider: OpenAIResponsesView,
    request: RequestView,
)
    ensures
        ({
            let buffered = provider.complete_request(request);
            let streamed = provider.stream_request(request);
            &&& leads_to(buffered.url, provider.base_url, "/responses"@)
            &&& streamed.url == buffered.url
            &&& buffered.bearer == provider.api_key
            &&& streamed.bearer == provider.api_key
            &&& buffered.headers.contains(("content-type"@, "application/json"@))
            &&& streamed.headers.contains(("content-type"@, "application/json"@))
            &&& streamed.headers.contains(("accept"@, "text/event-stream"@))
            &&& buffered.headers.len() == 1
            &&& streamed.headers.len() == 2
            &&& buffered.body == JsonView::Object(provider.body(request))
            &&& has(buffered.body, "stream"@, JsonView::Bool(false))
            &&& has(streamed.body, "stream"@, JsonView::Bool(true))
            &&& forall|key: Seq<char>, value: JsonView|
                key != "stream"@ ==> #[trigger] has(streamed.body, key, value) == has(
                    buffered.body,
                    key,
                    value,
                )
        }),
{
    body_keys_apart();
    stem_and_path(provider.base_url, "/responses"@);
    let buffered = provider.complete_request(request);
    let streamed = provider.stream_request(request);
    assert(buffered.headers[0] == ("content-type"@, "application/json"@));
    assert(streamed.headers[0] == ("content-type"@, "application/json"@));
    assert(streamed.headers[1] == ("accept"@, "text/event-stream"@));
}

/// Where requests of the Codex endpoint go, and with what: the access token as
/// bearer token, the account, the originator and what the endpoint asks for.
pub proof fn codex_requests_are_addressed<C>(
    provider: OpenAICodexView<C>,
    credentials: CodexCredentials,
    request: RequestView,
)
    ensures
        ({
            let sent: HttpRequestView = provider.http_request(credentials, request);
            &&& leads_to(sent.url, provider.base_url, "/codex/responses"@)
            &&& sent.bearer == credentials.access_token@
            &&& sent.headers.contains(("chatgpt-account-id"@, credentials.account_id@))
            &&& sent.headers.contains(("OpenAI-Beta"@, "responses=experimental"@))
            &&& sent.headers.contains(("originator"@, provider.originator))
            &&& sent.headers.contains(("accept"@, "text/event-stream"@))
            &&& sent.headers.contains(("content-type"@, "application/json"@))
            &&& sent.headers.len() == 5
            &&& sent.body == JsonView::Object(provider.body(request))
            &&& has(sent.body, "stream"@, JsonView::Bool(true))
        }),
{
    body_keys_apart();
    stem_and_path(provider.base_url, "/codex/responses"@);
    let sent = provider.http_request(credentials, request);
    assert(sent.headers[0] == ("chatgpt-account-id"@, credentials.account_id@));
    assert(sent.headers[1] == ("OpenAI-Beta"@, "responses=experimental"@));
    assert(sent.headers[2] == ("originator"@, provider.originator));
    assert(sent.headers[3] == ("accept"@, "text/event-stream"@));
    assert(sent.headers[4] == ("content-type"@, "application/json"@));
}

/// Whether an item is about the call with a tool-use id: it carries the part
/// before the first `|`, or the whole id where it has none.
pub open spec fn about_call(item: JsonView, id: Seq<char>) -> bool {
    &&& !id.contains('|') ==> has(item, "call_id"@, JsonView::Text(id))
    &&& forall|call_id: Seq<char>, rest: Seq<char>|
        !call_id.contains('|') && id == #[trigger] (call_id + seq!['|'] + rest) ==> has(
            item,
            "call_id"@,
            JsonView::Text(call_id),
        )
}

/// Whether an item carries the item id of a tool-use id: what stands behind
/// the first `|`, where anything does.
pub open spec fn about_item(item: JsonView, id: Seq<char>) -> bool {
    &&& !id.contains('|') ==> lacks(item, "id"@)
    &&& forall|call_id: Seq<char>, rest: Seq<char>|
        !call_id.contains('|') && id == #[trigger] (call_id + seq!['|'] + rest) ==> if rest.len()
            > 0 {
            has(item, "id"@, JsonView::Text(rest))
        } else {
            lacks(item, "id"@)
        }
}

proof fn id_halves(id: Seq<char>)
    ensures
        !id.contains('|') ==> split_id(id) == (id, None::<Seq<char>>),
        forall|call_id: Seq<char>, rest: Seq<char>|
            !call_id.contains('|') && id == #[trigger] (call_id + seq!['|'] + rest) ==> split_id(id)
                == (
                call_id,
                if rest.len() > 0 {
                    Some(rest)
                } else {
                    None
                },
            ),
{
    first_index_least(id, '|');
    assert forall|call_id: Seq<char>, rest: Seq<char>|
        !call_id.contains('|') && id == #[trigger] (call_id + seq!['|'] + rest) implies split_id(id)
        == (
        call_id,
        if rest.len() > 0 {
            Some(rest)
        } else {
            None
        },
    ) by {
        assert(id[call_id.len() as int] == '|');
        let i = first_index(id, '|')->0;
        if i < call_id.len() {
            assert(call_id[i] == '|');
        }
        assert(id.take(i) =~= call_id);
        assert(id.skip(i + 1) =~= rest);
    }
}

/// Whether an item says what a block of the user says: a text as a message of
/// the user, a tool's answer as the output of its call, a failure marked as
/// one.
pub open spec fn says_user_block(item: JsonView, block: ContentView) -> bool {
    match block {
        ContentView::Text { text, .. } => {
            &&& has(item, "role"@, JsonView::Text("user"@))
            &&& has(item, "content"@, JsonView::Text(text))
        },
        ContentView::ToolResult { tool_use_id, content, is_error, .. } => {
            &&& has(item, "type"@, JsonView::Text("function_call_output"@))
            &&& about_call(item, tool_use_id)
            &&& has(
                item,
                "output"@,
                JsonView::Text(
                    if is_error {
                        "[error] "@ + content
                    } else {
                        content
                    },
                ),
            )
        },
        _ => false,
    }
}

/// Whether an item says what a block of the model says: a text as a message of
/// the model, a call with its name and arguments, and a reasoning summary with
/// what the provider needs to accept it back.
pub open spec fn says_model_block(item: JsonView, block: ContentView) -> bool {
    match block {
        ContentView::Text { text, .. } => {
            &&& has(item, "role"@, JsonView::Text("assistant"@))
            &&& has(item, "content"@, JsonView::Text(text))
        },
        ContentView::ToolUse { id, name, input } => {
            &&& has(item, "type"@, JsonView::Text("function_call"@))
            &&& about_call(item, id)
            &&& about_item(item, id)
            &&& has(item, "name"@, JsonView::Text(name))
            &&& has(item, "arguments"@, JsonView::Text(json_text(input)))
        },
        ContentView::Thinking {
            text,
            provider: ThinkingProvider::OpenAIResponses,
            metadata: ThinkingMetadataView::OpenAIResponses { item_id, encrypted_content, .. },
        } => {
            &&& has(item, "type"@, JsonView::Text("reasoning"@))
            &&& exists|part: JsonView|
                {
                    &&& #[trigger] has(item, "summary"@, JsonView::Array(seq![part]))
                    &&& has(part, "type"@, JsonView::Text("summary_text"@))
                    &&& has(part, "text"@, JsonView::Text(text))
                }
            &&& match item_id {
                Some(id) => has(item, "id"@, JsonView::Text(id)),
                None => lacks(item, "id"@),
            }
            &&& match encrypted_content {
                Some(encrypted) => has(item, "encrypted_content"@, JsonView::Text(encrypted)),
                None => lacks(item, "encrypted_content"@),
            }
        },
        _ => false,
    }
}

/// Whether the wire has an item for a block that a role says.
pub open spec fn on_the_wire(role: Role, block: ContentView) -> bool {
    match block {
        ContentView::Text { .. } => true,
        ContentView::ToolResult { .. } => role == Role::User,
        ContentView::ToolUse { .. } => role == Role::Assistant,
        ContentView::Thinking { provider, metadata, .. } => role == Role::Assistant && provider
            == ThinkingProvider::OpenAIResponses && metadata is OpenAIResponses,
    }
}

/// Whether an item says what a block of a role says.
pub open spec fn says(role: Role, item: JsonView, block: ContentView) -> bool {
    match role {
        Role::User => says_user_block(item, block),
        Role::Assistant => says_model_block(item, block),
    }
}

/// Whether a message can go out block by block: the wire has an item for each
/// of them, and no text is empty or right behind another text.
pub open spec fn one_item_each(role: Role, content: Seq<ContentView>) -> bool {
    forall|i: int|
        0 <= i < content.len() ==> on_the_wire(role, #[trigger] content[i]) && match content[i] {
            ContentView::Text { text, .. } => text.len() > 0 && (i > 0 ==> !(content[i
                - 1] is Text)),
            _ => true,
        }
}

proof fn item_says(role: Role, block: ContentView, texts: Seq<Seq<char>>)
    requires
        on_the_wire(role, block),
        block is Text ==> texts == seq![block->Text_text],
    ensures
        match (role, block) {
            (Role::User, ContentView::ToolResult { tool_use_id, content, is_error, .. }) => {
                says(role, output_item(tool_use_id, content, is_error), block)
            },
            (Role::Assistant, ContentView::ToolUse { id, name, input }) => says(
                role,
                call_item(id, name, input),
                block,
            ),
            (
                Role::Assistant,
                ContentView::Thinking {
                    text,
                    metadata: ThinkingMetadataView::OpenAIResponses {
                        item_id,
                        encrypted_content,
                        ..
                    },
                    ..
                },
            ) => says(
                role,
                reasoning_item(item_id, text, encrypted_content),
                block,
            ),
            (Role::User, ContentView::Text { text, .. }) => says(
                role,
                text_item("user"@, text),
                block,
            ) && joined(texts, "\n"@) == text,
            (Role::Assistant, ContentView::Text { text, .. }) => says(
                role,
                text_item("assistant"@, text),
                block,
            ) && joined(texts, ""@) == text,
            _ => true,
        },
{
    item_keys_apart();
    match block {
        ContentView::ToolResult { tool_use_id, .. } => {
            id_halves(tool_use_id);
        },
        ContentView::ToolUse { id, .. } => {
            id_halves(id);
        },
        ContentView::Thinking { text, metadata, .. } => {
            match metadata {
                ThinkingMetadataView::OpenAIResponses { item_id, encrypted_content, .. } => {
                    let part = JsonView::Object(
                        map![
                            "type"@ => JsonView::Text("summary_text"@),
                            "text"@ => JsonView::Text(text),
                        ],
                    );
                    let item = reasoning_item(
                        item_id,
                        text,
                        encrypted_content,
                    );
                    assert(has(item, "summary"@, JsonView::Array(seq![part])));
                },
                _ => {},
            }
        },
        _ => {},
    }
}

spec fn gathered_by(role: Role, content: Seq<ContentView>) -> Gathered {
    match role {
        Role::User => user_gathered(content),
        Role::Assistant => assistant_gathered(content),
    }
}

proof fn said_so_far(role: Role, content: Seq<ContentView>)
    requires
        one_item_each(role, content),
    ensures
        ({
            let gathered = gathered_by(role, content);
            let written = if content.len() > 0 && content.last() is Text {
                content.len() - 1
            } else {
                content.len() as int
            };
            &&& gathered.items.len() == written
            &&& forall|i: int|
                0 <= i < written ==> says(role, #[trigger] gathered.items[i], content[i])
            &&& gathered.texts == if written < content.len() {
                seq![content.last()->Text_text]
            } else {
                Seq::empty()
            }
        }),
    decreases content.len(),
{
    if content.len() > 0 {
        let before = content.drop_last();
        let last = content[content.len() - 1];
        assert forall|i: int| 0 <= i < before.len() implies on_the_wire(role, #[trigger] before[i])
            && match before[i] {
            ContentView::Text { text, .. } => text.len() > 0 && (i > 0 ==> !(before[i
                - 1] is Text)),
            _ => true,
        } by {
            assert(before[i] == content[i]);
        }
        said_so_far(role, before);
        assert(content.last() == last);
        let gathered = gathered_by(role, before);
        item_says(role, last, seq![last->Text_text]);
        if before.len() > 0 && before.last() is Text {
            assert(before.last() == content[content.len() - 2]);
            item_says(role, before.last(), gathered.texts);
        }
        assert(joined(Seq::<Seq<char>>::empty(), "\n"@).len() == 0);
        assert(joined(Seq::<Seq<char>>::empty(), ""@).len() == 0);
        if last is Text {
            assert(gathered.texts.push(last->Text_text) =~= seq![last->Text_text]);
        }
        let after = gathered_by(role, content);
        let written = if last is Text {
            content.len() - 1
        } else {
            content.len() as int
        };
        assert(after.items.len() == written);
        assert forall|i: int| 0 <= i < written implies says(
            role,
            #[trigger] after.items[i],
            content[i],
        ) by {
            if i < gathered.items.len() {
                assert(after.items[i] == gathered.items[i]);
                assert(says(role, gathered.items[i], before[i]));
            }
        }
    }
}

/// A message goes out block by block, each block as one item and in its place:
/// texts as texts, calls as calls, answers as answers, thoughts as thoughts.
pub proof fn messages_go_out_in_order(role: Role, content: Seq<ContentView>)
    requires
        one_item_each(role, content),
    ensures
        ({
            let items = message_items(MessageView { role, content });
            &&& items.len() == content.len()
            &&& forall|i: int|
                0 <= i < content.len() ==> says(role, #[trigger] items[i], content[i])
        }),
{
    said_so_far(role, content);
    assert(joined(Seq::<Seq<char>>::empty(), "\n"@).len() == 0);
    assert(joined(Seq::<Seq<char>>::empty(), ""@).len() == 0);
    if content.len() > 0 && content.last() is Text {
        assert(content[content.len() - 1] is Text);
        item_says(role, content.last(), seq![content.last()->Text_text]);
    }
    let gathered = gathered_by(role, content);
    let items = message_items(MessageView { role, content });
    assert forall|i: int| 0 <= i < content.len() implies says(
        role,
        #[trigger] items[i],
        content[i],
    ) by {
        if i < gathered.items.len() {
            assert(items[i] == gathered.items[i]);
            assert(says(role, gathered.items[i], content[i]));
        }
    }
}

/// The texts of blocks.
pub open spec fn texts_of(content: Seq<ContentView>) -> Seq<Seq<char>> {
    Seq::new(content.len(), |i: int| content[i]->Text_text)
}

proof fn only_texts(content: Seq<ContentView>)
    requires
        forall|i: int| 0 <= i < content.len() ==> (#[trigger] content[i]) is Text,
    ensures
        user_gathered(content).items.len() == 0,
        user_gathered(content).texts == texts_of(content),
        assistant_gathered(content).items.len() == 0,
        assistant_gathered(content).texts == texts_of(content),
    decreases content.len(),
{
    if content.len() == 0 {
        assert(texts_of(content) =~= Seq::empty());
    } else {
        let before = content.drop_last();
        assert forall|i: int| 0 <= i < before.len() implies (#[trigger] before[i]) is Text by {
            assert(before[i] == content[i]);
        }
        only_texts(before);
        assert(content[content.len() - 1] is Text);
        assert(texts_of(content) =~= texts_of(before).push(content.last()->Text_text));
    }
}

/// Texts that stand together are one message: those of the user on lines of
/// their own, those of the model run together. Without any text there is no
/// message.
pub proof fn neighbouring_texts_are_one_message(role: Role, content: Seq<ContentView>)
    requires
        forall|i: int| 0 <= i < content.len() ==> (#[trigger] content[i]) is Text,
    ensures
        ({
            let items = message_items(MessageView { role, content });
            let text = match role {
                Role::User => joined(texts_of(content), "\n"@),
                Role::Assistant => joined(texts_of(content), ""@),
            };
            let speaker = match role {
                Role::User => "user"@,
                Role::Assistant => "assistant"@,
            };
            if text.len() == 0 {
                items.len() == 0
            } else {
                &&& items.len() == 1
                &&& has(items[0], "role"@, JsonView::Text(speaker))
                &&& has(items[0], "content"@, JsonView::Text(text))
            }
        }),
{
    only_texts(content);
    item_keys_apart();
}

proof fn passed_over(
    role: Role,
    first: Seq<ContentView>,
    block: ContentView,
    rest: Seq<ContentView>,
)
    requires
        !on_the_wire(role, block),
    ensures
        role == Role::User ==> user_gathered(first.push(block) + rest) == user_gathered(
            first + rest,
        ),
        role == Role::Assistant ==> assistant_gathered(first.push(block) + rest)
            == assistant_gathered(first + rest),
    decreases rest.len(),
{
    let with = first.push(block) + rest;
    let without = first + rest;
    if rest.len() == 0 {
        assert(with.drop_last() =~= first);
        assert(with.last() == block);
        assert(without =~= first);
    } else {
        passed_over(role, first, block, rest.drop_last());
        assert(with.drop_last() =~= first.push(block) + rest.drop_last());
        assert(without.drop_last() =~= first + rest.drop_last());
        assert(with.last() == rest.last());
        assert(without.last() == rest.last());
    }
}

/// A block that the wire has no item for, such as another provider's
/// reasoning, is left out, and what stands around it goes out as if it were
/// not there.
pub proof fn foreign_blocks_are_left_out(
    role: Role,
    first: Seq<ContentView>,
    block: ContentView,
    rest: Seq<ContentView>,
)
    requires
        !on_the_wire(role, block),
    ensures
        message_items(MessageView { role, content: first.push(block) + rest }) == message_items(
            MessageView { role, content: first + rest },
        ),
{
    passed_over(role, first, block, rest);
}

/// A conversation goes out message by message, in its order.
pub proof fn conversations_go_out_in_order(
    first: Seq<MessageView>,
    second: Seq<MessageView>,
    message: MessageView,
)
    ensures
        input_items(first + second) == input_items(first) + input_items(second),
        input_items(seq![message]) == message_items(message),
        input_items(Seq::<MessageView>::empty()).len() == 0,
    decreases second.len(),
{
    reveal_with_fuel(input_items, 2);
    assert(seq![message].drop_last() =~= Seq::<MessageView>::empty());
    assert(input_items(seq![message]) =~= message_items(message));
    if second.len() == 0 {
        assert(first + second =~= first);
        assert(input_items(first) + input_items(second) =~= input_items(first));
    } else {
        conversations_go_out_in_order(first, second.drop_last(), message);
        assert((first + second).drop_last() =~= first + second.drop_last());
        assert(input_items(first + second) =~= input_items(first) + input_items(second));
    }
}

/// Whether a block goes out as an item of its own: a call, an answer to one, or
/// a thought of this wire.
pub open spec fn stands_alone(role: Role, block: ContentView) -> bool {
    on_the_wire(role, block) && !(block is Text)
}

proof fn gathered_behind(
    role: Role,
    first: Seq<ContentView>,
    rest: Seq<ContentView>,
)
    requires
        gathered_by(role, first).texts.len() == 0,
    ensures
        gathered_by(role, first + rest).items == gathered_by(role, first).items + gathered_by(
            role,
            rest,
        ).items,
        gathered_by(role, first + rest).texts == gathered_by(role, rest).texts,
    decreases rest.len(),
{
    let all = first + rest;
    if rest.len() == 0 {
        assert(all =~= first);
        assert(gathered_by(role, all).items =~= gathered_by(role, first).items + gathered_by(
            role,
            rest,
        ).items);
        assert(gathered_by(role, all).texts =~= gathered_by(role, rest).texts);
    } else {
        gathered_behind(role, first, rest.drop_last());
        assert(all.drop_last() =~= first + rest.drop_last());
        assert(all.last() == rest.last());
        assert(gathered_by(role, all).items =~= gathered_by(role, first).items + gathered_by(
            role,
            rest,
        ).items);
    }
}

/// A message goes out piece by piece: what stands before a block with an item
/// of its own, that item, and what stands behind it.
pub proof fn messages_go_out_piece_by_piece(
    role: Role,
    first: Seq<ContentView>,
    block: ContentView,
    rest: Seq<ContentView>,
)
    requires
        stands_alone(role, block),
    ensures
        ({
            let before = message_items(MessageView { role, content: first });
            let behind = message_items(MessageView { role, content: rest });
            let all = message_items(MessageView { role, content: first.push(block) + rest });
            &&& all.len() == before.len() + 1 + behind.len()
            &&& all.take(before.len() as int) == before
            &&& says(role, all[before.len() as int], block)
            &&& all.skip(before.len() as int + 1) == behind
        }),
{
    let before = message_items(MessageView { role, content: first });
    let behind = message_items(MessageView { role, content: rest });
    let all = message_items(MessageView { role, content: first.push(block) + rest });
    let so_far = first.push(block);
    assert(so_far.drop_last() =~= first);
    item_says(role, block, Seq::empty());
    assert(gathered_by(role, so_far).items.drop_last() =~= before);
    gathered_behind(role, so_far, rest);
    assert(all =~= gathered_by(role, so_far).items + behind);
    assert(all.take(before.len() as int) =~= before);
    assert(all.skip(before.len() as int + 1) =~= behind);
}

} // verus!
