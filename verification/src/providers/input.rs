//! Requests on the Responses wire: instructions, tools and the `input` array.
use crate::json::{
    field_of, fields_view, json_text, number_view, set_field, with_optional, Json, JsonView,
};
use crate::message::{
    borrow_optional, optional_str, Content, ContentView, Message, MessageView, Role,
    ThinkingMetadata, ThinkingMetadataView, ThinkingProvider,
};
use crate::provider::{
    Request, RequestView, SystemBlockView, ToolDefinition, ToolDefinitionView,
};
use crate::text::{find_char, first_index, first_index_least, join, joined, views, views_push};
use vstd::prelude::*;
use vstd::string::*;

verus! {

/// The texts of the system blocks.
pub open spec fn block_texts(blocks: Seq<SystemBlockView>) -> Seq<Seq<char>> {
    Seq::new(blocks.len(), |i: int| blocks[i].text)
}

/// The system blocks as one text, a blank line between them; `None` where
/// that text is empty.
pub open spec fn instructions_text(system: Option<Seq<SystemBlockView>>) -> Option<Seq<char>> {
    match system {
        Some(blocks) => {
            let text = joined(block_texts(blocks), "\n\n"@);
            if text.len() == 0 {
                None
            } else {
                Some(text)
            }
        },
        None => None,
    }
}

/// Joins the system blocks of a request.
pub fn instructions(request: &Request) -> (r: Option<String>)
    ensures
        match r {
            Some(text) => instructions_text(request@.system) == Some(text@),
            None => instructions_text(request@.system) is None,
        },
{
    match &request.system {
        Some(blocks) => {
            let mut texts: Vec<String> = Vec::new();
            let mut i: usize = 0;
            while i < blocks.len()
                invariant
                    i <= blocks.len(),
                    texts.len() == i,
                    forall|k: int| 0 <= k < i ==> (#[trigger] texts@[k])@ == blocks@[k].text@,
                decreases blocks.len() - i,
            {
                texts.push(blocks[i].text.clone());
                i = i + 1;
            }
            assert(views(texts@) =~= block_texts(views(blocks@)));
            let text: String = join(&texts, "\n\n");
            if text.as_str().is_empty() {
                None
            } else {
                Some(text)
            }
        },
        None => None,
    }
}

/// The `function` envelope of one tool.
pub open spec fn tool_item(tool: ToolDefinitionView) -> JsonView {
    JsonView::Object(
        map![
            "type"@ => JsonView::Text("function"@),
            "name"@ => JsonView::Text(tool.name),
            "description"@ => JsonView::Text(tool.description),
            "parameters"@ => tool.input_schema,
            "strict"@ => JsonView::Null,
        ],
    )
}

/// The envelopes of the tools, in their order.
pub open spec fn tool_items(tools: Seq<ToolDefinitionView>) -> Seq<JsonView> {
    Seq::new(tools.len(), |i: int| tool_item(tools[i]))
}

/// Puts each tool in its `function` envelope.
pub fn build_tools(tools: &Vec<ToolDefinition>) -> (r: Vec<Json>)
    ensures
        views(r@) == tool_items(views(tools@)),
{
    let mut out: Vec<Json> = Vec::new();
    let mut i: usize = 0;
    while i < tools.len()
        invariant
            i <= tools.len(),
            out.len() == i,
            forall|k: int| 0 <= k < i ==> (#[trigger] out@[k])@ == tool_item(tools@[k]@),
        decreases tools.len() - i,
    {
        let mut fields: Vec<(String, Json)> = Vec::new();
        set_field(&mut fields, "type", Json::string("function"));
        set_field(&mut fields, "name", Json::string(tools[i].name.as_str()));
        set_field(&mut fields, "description", Json::string(tools[i].description.as_str()));
        set_field(&mut fields, "parameters", tools[i].input_schema.clone());
        set_field(&mut fields, "strict", Json::Null);
        out.push(Json::Object(fields));
        i = i + 1;
    }
    assert(views(out@) =~= tool_items(views(tools@)));
    out
}

/// The two halves of a tool-use id: the call id, and the item id behind the
/// first `|` where there is one that is not empty.
pub open spec fn split_id(id: Seq<char>) -> (Seq<char>, Option<Seq<char>>) {
    match first_index(id, '|') {
        Some(i) => (
            id.take(i),
            if id.skip(i + 1).len() > 0 {
                Some(id.skip(i + 1))
            } else {
                None
            },
        ),
        None => (id, None),
    }
}

/// The tool-use id that holds a call id and an item id.
pub open spec fn combined_id(call_id: Seq<char>, item_id: Seq<char>) -> Seq<char> {
    if item_id.len() == 0 {
        call_id
    } else {
        call_id.push('|') + item_id
    }
}

/// Splitting a combined id gives back both halves, as long as the call id
/// holds no `|`.
pub proof fn split_of_combined(call_id: Seq<char>, item_id: Seq<char>)
    requires
        !call_id.contains('|'),
    ensures
        split_id(combined_id(call_id, item_id)) == (
            call_id,
            if item_id.len() > 0 {
                Some(item_id)
            } else {
                None::<Seq<char>>
            },
        ),
{
    let id = combined_id(call_id, item_id);
    first_index_least(id, '|');
    if item_id.len() == 0 {
        assert(id == call_id);
        match first_index(id, '|') {
            Some(i) => {
                assert(call_id[i] == '|');
            },
            None => {},
        }
    } else {
        assert(id[call_id.len() as int] == '|');
        let i = first_index(id, '|')->0;
        if i < call_id.len() {
            assert(call_id[i] == '|');
        }
        assert(id.take(i) =~= call_id);
        assert(id.skip(i + 1) =~= item_id);
    }
}

/// Splits a tool-use id into its call id and its item id.
pub fn split_tool_use_id(id: &str) -> (r: (String, Option<String>))
    ensures
        r.0@ == split_id(id@).0,
        match r.1 {
            Some(item_id) => split_id(id@).1 == Some(item_id@),
            None => split_id(id@).1 is None,
        },
{
    match find_char(id, '|') {
        Some(i) => {
            let len: usize = id.unicode_len();
            let call_id: String = id.substring_char(0, i).to_owned();
            assert(id@.subrange(0, i as int) =~= id@.take(i as int));
            if i + 1 < len {
                let item_id: String = id.substring_char(i + 1, len).to_owned();
                assert(item_id@ =~= id@.skip(i + 1));
                (call_id, Some(item_id))
            } else {
                (call_id, None)
            }
        },
        None => (id.to_owned(), None),
    }
}

/// The call id that a tool's answer goes to.
pub fn tool_call_id_for_output(id: &str) -> (r: String)
    ensures
        r@ == split_id(id@).0,
{
    split_tool_use_id(id).0
}

/// Joins a call id and an item id into a tool-use id.
pub fn combined_tool_use_id(call_id: &str, item_id: &str) -> (r: String)
    ensures
        r@ == combined_id(call_id@, item_id@),
{
    let mut text: String = call_id.to_owned();
    if !item_id.is_empty() {
        text.push('|');
        text.append(item_id);
    }
    text
}

/// A text message on the wire.
pub open spec fn text_item(role: Seq<char>, content: Seq<char>) -> JsonView {
    JsonView::Object(
        map![
            "role"@ => JsonView::Text(role),
            "content"@ => JsonView::Text(content),
        ],
    )
}

/// The items so far, and a text message behind them unless the text is empty.
pub open spec fn with_text(items: Seq<JsonView>, role: Seq<char>, content: Seq<char>) -> Seq<
    JsonView,
> {
    if content.len() == 0 {
        items
    } else {
        items.push(text_item(role, content))
    }
}

fn push_text_message(input: &mut Vec<Json>, role: &str, content: &str)
    ensures
        views(final(input)@) == with_text(views(old(input)@), role@, content@),
{
    if !content.is_empty() {
        let mut fields: Vec<(String, Json)> = Vec::new();
        set_field(&mut fields, "role", Json::string(role));
        set_field(&mut fields, "content", Json::string(content));
        let item: Json = Json::Object(fields);
        proof {
            views_push(input@, item);
        }
        input.push(item);
    }
}

/// Items written out and texts still held back while a message is walked.
#[verifier::ext_equal]
pub struct Gathered {
    pub items: Seq<JsonView>,
    pub texts: Seq<Seq<char>>,
}

impl Gathered {
    /// Everything written out: the held texts become one message.
    pub open spec fn flushed(self, role: Seq<char>, separator: Seq<char>) -> Seq<JsonView> {
        with_text(self.items, role, joined(self.texts, separator))
    }

    /// The held texts written out, then one item.
    pub open spec fn with_item(
        self,
        role: Seq<char>,
        separator: Seq<char>,
        item: JsonView,
    ) -> Gathered {
        Gathered { items: self.flushed(role, separator).push(item), texts: Seq::empty() }
    }

    /// One more text held back.
    pub open spec fn with_held(self, text: Seq<char>) -> Gathered {
        Gathered { items: self.items, texts: self.texts.push(text) }
    }
}

/// A tool's answer on the wire; a failure is marked by a prefix.
pub open spec fn output_item(
    tool_use_id: Seq<char>,
    content: Seq<char>,
    is_error: bool,
) -> JsonView {
    JsonView::Object(
        map![
            "type"@ => JsonView::Text("function_call_output"@),
            "call_id"@ => JsonView::Text(split_id(tool_use_id).0),
            "output"@ => JsonView::Text(
                if is_error {
                    "[error] "@ + content
                } else {
                    content
                },
            ),
        ],
    )
}

/// A user message walked up to its end: texts are held, tool answers written.
pub open spec fn user_gathered(content: Seq<ContentView>) -> Gathered
    decreases content.len(),
{
    if content.len() == 0 {
        Gathered { items: Seq::empty(), texts: Seq::empty() }
    } else {
        let before = user_gathered(content.drop_last());
        match content.last() {
            ContentView::Text { text, .. } => before.with_held(text),
            ContentView::ToolResult { tool_use_id, content, is_error, .. } => before.with_item(
                "user"@,
                "\n"@,
                output_item(tool_use_id, content, is_error),
            ),
            _ => before,
        }
    }
}

/// A reasoning summary on the wire.
pub open spec fn reasoning_item(
    item_id: Option<Seq<char>>,
    text: Seq<char>,
    encrypted_content: Option<Seq<char>>,
) -> JsonView {
    let part = JsonView::Object(
        map![
            "type"@ => JsonView::Text("summary_text"@),
            "text"@ => JsonView::Text(text),
        ],
    );
    let fields =
        map![
        "type"@ => JsonView::Text("reasoning"@),
        "summary"@ => JsonView::Array(seq![part]),
    ];
    let with_id = match item_id {
        Some(id) => fields.insert("id"@, JsonView::Text(id)),
        None => fields,
    };
    JsonView::Object(
        match encrypted_content {
            Some(encrypted) => with_id.insert("encrypted_content"@, JsonView::Text(encrypted)),
            None => with_id,
        },
    )
}

/// A tool call on the wire; the item id goes along where the tool-use id has
/// one.
pub open spec fn call_item(id: Seq<char>, name: Seq<char>, input: JsonView) -> JsonView {
    let fields =
        map![
        "type"@ => JsonView::Text("function_call"@),
        "call_id"@ => JsonView::Text(split_id(id).0),
        "name"@ => JsonView::Text(name),
        "arguments"@ => JsonView::Text(json_text(input)),
    ];
    JsonView::Object(
        match split_id(id).1 {
            Some(item_id) => fields.insert("id"@, JsonView::Text(item_id)),
            None => fields,
        },
    )
}

/// A model message walked up to its end: texts are held, reasoning summaries
/// of this wire and tool calls written.
pub open spec fn assistant_gathered(content: Seq<ContentView>) -> Gathered
    decreases content.len(),
{
    if content.len() == 0 {
        Gathered { items: Seq::empty(), texts: Seq::empty() }
    } else {
        let before = assistant_gathered(content.drop_last());
        match content.last() {
            ContentView::Text { text, .. } => before.with_held(text),
            ContentView::Thinking {
                text,
                provider: ThinkingProvider::OpenAIResponses,
                metadata: ThinkingMetadataView::OpenAIResponses { item_id, encrypted_content, .. },
            } => before.with_item(
                "assistant"@,
                ""@,
                reasoning_item(item_id, text, encrypted_content),
            ),
            ContentView::ToolUse { id, name, input } => before.with_item(
                "assistant"@,
                ""@,
                call_item(id, name, input),
            ),
            _ => before,
        }
    }
}

/// One message on the wire.
pub open spec fn message_items(message: MessageView) -> Seq<JsonView> {
    match message.role {
        Role::User => user_gathered(message.content).flushed("user"@, "\n"@),
        Role::Assistant => assistant_gathered(message.content).flushed("assistant"@, ""@),
    }
}

/// A conversation on the wire: the items of its messages in order.
pub open spec fn input_items(messages: Seq<MessageView>) -> Seq<JsonView>
    decreases messages.len(),
{
    if messages.len() == 0 {
        Seq::empty()
    } else {
        input_items(messages.drop_last()) + message_items(messages.last())
    }
}

/// Writes a conversation as the `input` array.
pub fn build_input(messages: &Vec<Message>) -> (r: Vec<Json>)
    ensures
        views(r@) == input_items(views(messages@)),
{
    let mut input: Vec<Json> = Vec::new();
    let mut i: usize = 0;
    assert(views(input@) =~= input_items(views(messages@).take(0)));
    while i < messages.len()
        invariant
            i <= messages.len(),
            views(input@) == input_items(views(messages@).take(i as int)),
        decreases messages.len() - i,
    {
        assert(views(messages@).take(i + 1).drop_last() =~= views(messages@).take(i as int));
        match messages[i].role {
            Role::User => push_user_message(&mut input, &messages[i]),
            Role::Assistant => push_assistant_message(&mut input, &messages[i]),
        }
        i = i + 1;
    }
    assert(views(messages@).take(i as int) =~= views(messages@));
    input
}

fn function_call_output(tool_use_id: &str, content: &str, is_error: bool) -> (r: Json)
    ensures
        r@ == output_item(tool_use_id@, content@, is_error),
{
    let mut output: String = String::new();
    if is_error {
        output.append("[error] ");
    }
    output.append(content);
    assert(output@ =~= if is_error {
        "[error] "@ + content@
    } else {
        content@
    });
    let mut fields: Vec<(String, Json)> = Vec::new();
    set_field(&mut fields, "type", Json::string("function_call_output"));
    set_field(&mut fields, "call_id", Json::Text(tool_call_id_for_output(tool_use_id)));
    set_field(&mut fields, "output", Json::Text(output));
    Json::Object(fields)
}

/// Writes a user message behind the items.
pub fn push_user_message(input: &mut Vec<Json>, message: &Message)
    ensures
        views(final(input)@) == views(old(input)@) + user_gathered(message@.content).flushed(
            "user"@,
            "\n"@,
        ),
{
    let ghost start = views(input@);
    let ghost all = message@.content;
    let mut texts: Vec<String> = Vec::new();
    let mut i: usize = 0;
    assert(all.take(0) =~= Seq::<ContentView>::empty());
    assert(views(input@) =~= start + user_gathered(all.take(0)).items);
    assert(views(texts@) =~= user_gathered(all.take(0)).texts);
    while i < message.content.len()
        invariant
            i <= message.content.len(),
            all == views(message.content@),
            views(input@) == start + user_gathered(all.take(i as int)).items,
            views(texts@) == user_gathered(all.take(i as int)).texts,
        decreases message.content.len() - i,
    {
        let ghost before = user_gathered(all.take(i as int));
        proof {
            assert(all.take(i + 1).drop_last() =~= all.take(i as int));
            assert(all.take(i + 1).last() == message.content@[i as int]@);
        }
        match &message.content[i] {
            Content::Text { text, .. } => {
                let chunk: String = text.clone();
                proof {
                    views_push(texts@, chunk);
                }
                texts.push(chunk);
            },
            Content::ToolResult { tool_use_id, content, is_error, .. } => {
                push_text_message(input, "user", join(&texts, "\n").as_str());
                texts = Vec::new();
                assert(views(texts@) =~= Seq::<Seq<char>>::empty());
                assert(views(input@) =~= start + before.flushed("user"@, "\n"@));
                let item: Json = function_call_output(
                    tool_use_id.as_str(),
                    content.as_str(),
                    *is_error,
                );
                proof {
                    views_push(input@, item);
                }
                input.push(item);
                assert(views(input@) =~= start + before.flushed("user"@, "\n"@).push(item@));
            },
            Content::Thinking { .. } | Content::ToolUse { .. } => {},
        }
        i = i + 1;
    }
    assert(all.take(i as int) =~= all);
    push_text_message(input, "user", join(&texts, "\n").as_str());
    assert(views(input@) =~= start + user_gathered(all).flushed("user"@, "\n"@));
}

fn openai_reasoning_input(
    item_id: Option<&str>,
    text: &str,
    encrypted_content: Option<&str>,
) -> (r: Json)
    ensures
        r@ == reasoning_item(optional_str(item_id), text@, optional_str(encrypted_content)),
{
    let mut part: Vec<(String, Json)> = Vec::new();
    set_field(&mut part, "type", Json::string("summary_text"));
    set_field(&mut part, "text", Json::string(text));
    let part_value: Json = Json::Object(part);
    let parts: Vec<Json> = vec![part_value];
    assert(views(parts@) =~= seq![part_value@]);
    let summary: Json = Json::array(parts);
    let mut fields: Vec<(String, Json)> = Vec::new();
    set_field(&mut fields, "type", Json::string("reasoning"));
    set_field(&mut fields, "summary", summary);
    if let Some(id) = item_id {
        set_field(&mut fields, "id", Json::string(id));
    }
    if let Some(encrypted) = encrypted_content {
        set_field(&mut fields, "encrypted_content", Json::string(encrypted));
    }
    Json::Object(fields)
}

fn function_call(id: &str, name: &str, input: &Json) -> (r: Json)
    ensures
        r@ == call_item(id@, name@, input@),
{
    let (call_id, item_id): (String, Option<String>) = split_tool_use_id(id);
    let mut fields: Vec<(String, Json)> = Vec::new();
    set_field(&mut fields, "type", Json::string("function_call"));
    set_field(&mut fields, "call_id", Json::Text(call_id));
    set_field(&mut fields, "name", Json::string(name));
    set_field(&mut fields, "arguments", Json::Text(input.to_text()));
    if let Some(item) = item_id {
        set_field(&mut fields, "id", Json::Text(item));
    }
    Json::Object(fields)
}

/// Writes a model message behind the items.
pub fn push_assistant_message(input: &mut Vec<Json>, message: &Message)
    ensures
        views(final(input)@) == views(old(input)@) + assistant_gathered(message@.content).flushed(
            "assistant"@,
            ""@,
        ),
{
    let ghost start = views(input@);
    let ghost all = message@.content;
    let mut texts: Vec<String> = Vec::new();
    let mut i: usize = 0;
    assert(all.take(0) =~= Seq::<ContentView>::empty());
    assert(views(input@) =~= start + assistant_gathered(all.take(0)).items);
    assert(views(texts@) =~= assistant_gathered(all.take(0)).texts);
    while i < message.content.len()
        invariant
            i <= message.content.len(),
            all == views(message.content@),
            views(input@) == start + assistant_gathered(all.take(i as int)).items,
            views(texts@) == assistant_gathered(all.take(i as int)).texts,
        decreases message.content.len() - i,
    {
        let ghost before = assistant_gathered(all.take(i as int));
        proof {
            assert(all.take(i + 1).drop_last() =~= all.take(i as int));
            assert(all.take(i + 1).last() == message.content@[i as int]@);
        }
        match &message.content[i] {
            Content::Text { text, .. } => {
                let chunk: String = text.clone();
                proof {
                    views_push(texts@, chunk);
                }
                texts.push(chunk);
            },
            Content::Thinking {
                text,
                provider: ThinkingProvider::OpenAIResponses,
                metadata: ThinkingMetadata::OpenAIResponses { item_id, encrypted_content, .. },
            } => {
                push_text_message(input, "assistant", join(&texts, "").as_str());
                texts = Vec::new();
                assert(views(texts@) =~= Seq::<Seq<char>>::empty());
                assert(views(input@) =~= start + before.flushed("assistant"@, ""@));
                let item: Json = openai_reasoning_input(
                    borrow_optional(item_id),
                    text.as_str(),
                    borrow_optional(encrypted_content),
                );
                proof {
                    views_push(input@, item);
                }
                input.push(item);
                assert(views(input@) =~= start + before.flushed("assistant"@, ""@).push(item@));
            },
            Content::ToolUse { id, name, input: arguments } => {
                push_text_message(input, "assistant", join(&texts, "").as_str());
                texts = Vec::new();
                assert(views(texts@) =~= Seq::<Seq<char>>::empty());
                assert(views(input@) =~= start + before.flushed("assistant"@, ""@));
                let item: Json = function_call(id.as_str(), name.as_str(), arguments);
                proof {
                    views_push(input@, item);
                }
                input.push(item);
                assert(views(input@) =~= start + before.flushed("assistant"@, ""@).push(item@));
            },
            Content::Thinking { .. } | Content::ToolResult { .. } => {},
        }
        i = i + 1;
    }
    assert(all.take(i as int) =~= all);
    push_text_message(input, "assistant", join(&texts, "").as_str());
    assert(views(input@) =~= start + assistant_gathered(all).flushed("assistant"@, ""@));
}

/// The fields of a request with its tools, where it has any.
pub open spec fn with_tools(
    fields: Map<Seq<char>, JsonView>,
    tools: Seq<ToolDefinitionView>,
) -> Map<Seq<char>, JsonView> {
    if tools.len() == 0 {
        fields
    } else {
        fields.insert("tools"@, JsonView::Array(tool_items(tools))).insert(
            "tool_choice"@,
            JsonView::Text("auto"@),
        ).insert("parallel_tool_calls"@, JsonView::Bool(true))
    }
}

/// Adds the tools of a request to its body.
pub fn set_tools(fields: &mut Vec<(String, Json)>, tools: &Vec<ToolDefinition>)
    ensures
        fields_view(final(fields)@) == with_tools(fields_view(old(fields)@), views(tools@)),
{
    if tools.len() > 0 {
        set_field(fields, "tools", Json::array(build_tools(tools)));
        set_field(fields, "tool_choice", Json::string("auto"));
        set_field(fields, "parallel_tool_calls", Json::Bool(true));
    }
}

/// The list of what a request asks to be included: the encrypted reasoning.
pub open spec fn encrypted_include() -> JsonView {
    JsonView::Array(seq![JsonView::Text("reasoning.encrypted_content"@)])
}

/// Asks for the encrypted reasoning.
pub fn encrypted_include_list() -> (r: Json)
    ensures
        r@ == encrypted_include(),
{
    let items: Vec<Json> = vec![Json::string("reasoning.encrypted_content")];
    assert(views(items@) =~= seq![JsonView::Text("reasoning.encrypted_content"@)]);
    Json::array(items)
}

/// The fields of a request with its instructions and temperature, where it
/// has them.
pub open spec fn with_prompt(
    fields: Map<Seq<char>, JsonView>,
    request: RequestView,
) -> Map<Seq<char>, JsonView> {
    let instructed = with_optional(
        fields,
        "instructions"@,
        match instructions_text(request.system) {
            Some(text) => Some(JsonView::Text(text)),
            None => None,
        },
    );
    with_optional(
        instructed,
        "temperature"@,
        match request.temperature {
            Some(number) => Some(number_view(number)),
            None => None,
        },
    )
}

/// Adds instructions and temperature to the body of a request.
pub fn set_prompt(fields: &mut Vec<(String, Json)>, request: &Request)
    ensures
        fields_view(final(fields)@) == with_prompt(fields_view(old(fields)@), request@),
{
    if let Some(text) = instructions(request) {
        set_field(fields, "instructions", Json::Text(text));
    }
    if let Some(number) = &request.temperature {
        set_field(fields, "temperature", Json::Number(number.copy()));
    }
}

/// The key of the reasoning block is no other key of a request.
pub proof fn reasoning_key_apart()
    ensures
        "reasoning"@ != "model"@,
        "reasoning"@ != "store"@,
        "reasoning"@ != "stream"@,
        "reasoning"@ != "input"@,
        "reasoning"@ != "max_output_tokens"@,
        "reasoning"@ != "instructions"@,
        "reasoning"@ != "temperature"@,
        "reasoning"@ != "include"@,
        "reasoning"@ != "text"@,
        "reasoning"@ != "tools"@,
        "reasoning"@ != "tool_choice"@,
        "reasoning"@ != "parallel_tool_calls"@,
{
    reveal_strlit("reasoning");
    assert("reasoning"@.len() == 9);
    reveal_strlit("model");
    assert("model"@.len() == 5);
    reveal_strlit("store");
    assert("store"@.len() == 5);
    reveal_strlit("stream");
    assert("stream"@.len() == 6);
    reveal_strlit("input");
    assert("input"@.len() == 5);
    reveal_strlit("max_output_tokens");
    assert("max_output_tokens"@.len() == 17);
    reveal_strlit("instructions");
    assert("instructions"@.len() == 12);
    reveal_strlit("temperature");
    assert("temperature"@.len() == 11);
    reveal_strlit("include");
    assert("include"@.len() == 7);
    reveal_strlit("text");
    assert("text"@.len() == 4);
    reveal_strlit("tools");
    assert("tools"@.len() == 5);
    reveal_strlit("tool_choice");
    assert("tool_choice"@.len() == 11);
    reveal_strlit("parallel_tool_calls");
    assert("parallel_tool_calls"@.len() == 19);
}

proof fn item_keys_apart()
    ensures
        "call_id"@ != "type"@,
        "call_id"@ != "name"@,
        "call_id"@ != "arguments"@,
        "call_id"@ != "id"@,
        "call_id"@ != "output"@,
        "status"@ != "type"@,
        "status"@ != "call_id"@,
        "status"@ != "name"@,
        "status"@ != "arguments"@,
        "status"@ != "id"@,
        "status"@ != "output"@,
        "status"@ != "summary"@,
        "status"@ != "encrypted_content"@,
{
    reveal_strlit("type");
    assert("type"@.len() == 4);
    reveal_strlit("call_id");
    assert("call_id"@.len() == 7);
    reveal_strlit("name");
    assert("name"@.len() == 4);
    reveal_strlit("arguments");
    assert("arguments"@.len() == 9);
    reveal_strlit("id");
    assert("id"@.len() == 2);
    reveal_strlit("output");
    assert("output"@.len() == 6);
    reveal_strlit("summary");
    assert("summary"@.len() == 7);
    reveal_strlit("encrypted_content");
    assert("encrypted_content"@.len() == 17);
    reveal_strlit("status");
    assert("status"@.len() == 6);
    assert("status"@[0] == 's');
    assert("output"@[0] == 'o');
}

/// A tool's answer goes to the call it answers: both carry the same call id.
pub proof fn call_and_answer_share_the_call_id(
    id: Seq<char>,
    name: Seq<char>,
    input: JsonView,
    content: Seq<char>,
    is_error: bool,
)
    ensures
        field_of(call_item(id, name, input), "call_id"@) == Some(JsonView::Text(split_id(id).0)),
        field_of(output_item(id, content, is_error), "call_id"@) == field_of(
            call_item(id, name, input),
            "call_id"@,
        ),
{
    item_keys_apart();
}

/// What is replayed never carries a `status`, which the wire has for answers
/// alone.
pub proof fn replayed_items_have_no_status(
    id: Seq<char>,
    name: Seq<char>,
    input: JsonView,
    content: Seq<char>,
    is_error: bool,
    item_id: Option<Seq<char>>,
    encrypted_content: Option<Seq<char>>,
)
    ensures
        field_of(call_item(id, name, input), "status"@) is None,
        field_of(output_item(id, content, is_error), "status"@) is None,
        field_of(reasoning_item(item_id, content, encrypted_content), "status"@) is None,
{
    item_keys_apart();
}

} // verus!
