//! The ChatGPT subscription Codex endpoint: configuration, requests, and the
//! answer collected from its event stream.
use crate::error::{ProviderError, ProviderErrorView};
use crate::json::{set_field, with_optional, Json, JsonView};
use crate::message::{
    flush_text, with_text_block, Content, ContentView, StopReason, Usage,
};
use crate::provider::{Request, RequestView, Response, ResponseView, ThinkingConfig};
use crate::providers::effort::{
    map_thinking_effort, EffortView, OpenAIEffort, OpenAISummary, SummaryView,
};
use crate::providers::http::{headers_view, push_header, quote, quoted, HttpRequest, HttpRequestView};
use crate::providers::input::{
    build_input, encrypted_include, encrypted_include_list, input_items, reasoning_key_apart,
    set_prompt, set_tools, with_prompt, with_tools,
};
use crate::providers::response::decoded_view;
use crate::providers::sse::ItemView;
use crate::stream::{item_view, items_view, StreamEvent, StreamEventView};
use crate::text::{trim_end_char, views, views_push, without_trailing};
use vstd::prelude::*;
use vstd::string::*;

verus! {

/// Bearer credentials of the Codex endpoint, supplied by the caller.
///
/// The type has no `Debug` of its own: [`CodexCredentials::debug_text`] shows
/// the account and keeps the token out.
pub struct CodexCredentials {
    pub access_token: String,
    pub account_id: String,
}

/// How credentials look in a log: the account, and no token.
pub open spec fn redacted(account_id: Seq<char>) -> Seq<char> {
    "CodexCredentials { access_token: \"<redacted>\", account_id: "@ + quoted(account_id) + " }"@
}

impl CodexCredentials {
    /// Credentials of an account.
    pub fn new(access_token: &str, account_id: &str) -> (r: CodexCredentials)
        ensures
            r.access_token@ == access_token@,
            r.account_id@ == account_id@,
    {
        CodexCredentials {
            access_token: access_token.to_owned(),
            account_id: account_id.to_owned(),
        }
    }

    /// The credentials as a log may show them. The text is a function of the
    /// account alone.
    pub fn debug_text(&self) -> (r: String)
        ensures
            r@ == redacted(self.account_id@),
    {
        let mut text: String =
            "CodexCredentials { access_token: \"<redacted>\", account_id: ".to_owned();
        text.append(quote(self.account_id.as_str()).as_str());
        text.append(" }");
        text
    }
}

impl Clone for CodexCredentials {
    fn clone(&self) -> (r: CodexCredentials)
        ensures
            r == *self,
    {
        CodexCredentials {
            access_token: self.access_token.clone(),
            account_id: self.account_id.clone(),
        }
    }
}

/// What an optional effort stands for.
pub open spec fn optional_effort(effort: Option<OpenAIEffort>) -> Option<EffortView> {
    match effort {
        Some(e) => Some(e@),
        None => None,
    }
}

/// What an optional summary level stands for.
pub open spec fn optional_summary(summary: Option<OpenAISummary>) -> Option<SummaryView> {
    match summary {
        Some(s) => Some(s@),
        None => None,
    }
}

/// Which effort a call asks for.
pub open spec fn effort_for(
    thinking: Option<ThinkingConfig>,
    configured: Option<EffortView>,
) -> Option<EffortView> {
    match thinking {
        Some(ThinkingConfig::Disabled) => None,
        Some(ThinkingConfig::Effort(effort)) => Some(EffortView::of_call(effort)),
        Some(ThinkingConfig::Budget(_)) | None => configured,
    }
}

/// Which summary a call asks for: with an effort of its own at least the
/// automatic one.
pub open spec fn summary_for(
    thinking: Option<ThinkingConfig>,
    configured: Option<SummaryView>,
) -> Option<SummaryView> {
    match thinking {
        Some(ThinkingConfig::Disabled) => None,
        Some(ThinkingConfig::Effort(_)) => match configured {
            Some(summary) => Some(summary),
            None => Some(SummaryView::Auto),
        },
        Some(ThinkingConfig::Budget(_)) | None => configured,
    }
}

fn clone_effort(effort: &Option<OpenAIEffort>) -> (r: Option<OpenAIEffort>)
    ensures
        optional_effort(r) == optional_effort(*effort),
{
    match effort {
        Some(e) => Some(e.clone()),
        None => None,
    }
}

fn clone_summary(summary: &Option<OpenAISummary>) -> (r: Option<OpenAISummary>)
    ensures
        optional_summary(r) == optional_summary(*summary),
{
    match summary {
        Some(s) => Some(s.clone()),
        None => None,
    }
}

/// Works out which effort a call asks for.
pub fn effective_reasoning_effort(request: &Request, configured: &Option<OpenAIEffort>) -> (r:
    Option<OpenAIEffort>)
    ensures
        optional_effort(r) == effort_for(request@.thinking, optional_effort(*configured)),
{
    match &request.thinking {
        Some(ThinkingConfig::Disabled) => None,
        Some(ThinkingConfig::Effort(effort)) => Some(map_thinking_effort(effort)),
        Some(ThinkingConfig::Budget(_)) | None => clone_effort(configured),
    }
}

/// Works out which summary a call asks for.
pub fn effective_reasoning_summary(request: &Request, configured: &Option<OpenAISummary>) -> (r:
    Option<OpenAISummary>)
    ensures
        optional_summary(r) == summary_for(request@.thinking, optional_summary(*configured)),
{
    match &request.thinking {
        Some(ThinkingConfig::Disabled) => None,
        Some(ThinkingConfig::Effort(_)) => match configured {
            Some(s) => Some(s.clone()),
            None => Some(OpenAISummary::Auto),
        },
        Some(ThinkingConfig::Budget(_)) | None => clone_summary(configured),
    }
}

/// A text field that may be missing.
pub open spec fn with_text_field(
    fields: Map<Seq<char>, JsonView>,
    key: Seq<char>,
    text: Option<Seq<char>>,
) -> Map<Seq<char>, JsonView> {
    with_optional(
        fields,
        key,
        match text {
            Some(t) => Some(JsonView::Text(t)),
            None => None,
        },
    )
}

/// The `reasoning` block of a request: effort and summary, where they are
/// set; no block where neither is.
pub open spec fn reasoning_of(effort: Option<EffortView>, summary: Option<SummaryView>) -> Option<
    JsonView,
> {
    if effort is None && summary is None {
        None
    } else {
        Some(
            JsonView::Object(
                with_text_field(
                    with_text_field(
                        Map::empty(),
                        "effort"@,
                        match effort {
                            Some(e) => Some(e.wire()),
                            None => None,
                        },
                    ),
                    "summary"@,
                    match summary {
                        Some(s) => Some(s.wire()),
                        None => None,
                    },
                ),
            ),
        )
    }
}

/// The body of a request.
pub open spec fn codex_fields(
    request: RequestView,
    effort: Option<EffortView>,
    summary: Option<SummaryView>,
) -> Map<Seq<char>, JsonView> {
    let base =
        map![
        "model"@ => JsonView::Text(request.model),
        "store"@ => JsonView::Bool(false),
        "stream"@ => JsonView::Bool(true),
        "input"@ => JsonView::Array(input_items(request.messages)),
        "text"@ => JsonView::Object(map!["verbosity"@ => JsonView::Text("low"@)]),
        "include"@ => encrypted_include(),
    ];
    with_tools(
        with_optional(with_prompt(base, request), "reasoning"@, reasoning_of(effort, summary)),
        request.tools,
    )
}

/// Builds the body of a request.
pub fn build_request_body(
    request: &Request,
    reasoning_effort: &Option<OpenAIEffort>,
    reasoning_summary: &Option<OpenAISummary>,
) -> (r: Json)
    ensures
        r@ == JsonView::Object(
            codex_fields(
                request@,
                optional_effort(*reasoning_effort),
                optional_summary(*reasoning_summary),
            ),
        ),
{
    let mut verbosity: Vec<(String, Json)> = Vec::new();
    set_field(&mut verbosity, "verbosity", Json::string("low"));
    let mut fields: Vec<(String, Json)> = Vec::new();
    set_field(&mut fields, "model", Json::string(request.model.as_str()));
    set_field(&mut fields, "store", Json::Bool(false));
    set_field(&mut fields, "stream", Json::Bool(true));
    set_field(&mut fields, "input", Json::array(build_input(&request.messages)));
    set_field(&mut fields, "text", Json::Object(verbosity));
    set_field(&mut fields, "include", encrypted_include_list());
    set_prompt(&mut fields, request);
    if reasoning_effort.is_some() || reasoning_summary.is_some() {
        let mut block: Vec<(String, Json)> = Vec::new();
        if let Some(effort) = reasoning_effort {
            set_field(&mut block, "effort", Json::string(effort.as_wire()));
        }
        if let Some(summary) = reasoning_summary {
            set_field(&mut block, "summary", Json::string(summary.as_wire()));
        }
        set_field(&mut fields, "reasoning", Json::Object(block));
    }
    set_tools(&mut fields, &request.tools);
    Json::Object(fields)
}

/// Configuration of the Codex endpoint.
///
/// An effort of the call goes before the configured one, a disabled call
/// drops effort and summary, and a token budget is passed over. Where fresh
/// credentials come from is the caller's `C`.
pub struct OpenAICodex<C> {
    credentials: C,
    base_url: String,
    originator: String,
    reasoning_effort: Option<OpenAIEffort>,
    reasoning_summary: Option<OpenAISummary>,
}

/// What an [`OpenAICodex`] stands for.
#[verifier::reject_recursive_types(C)]
pub struct OpenAICodexView<C> {
    pub credentials: C,
    pub base_url: Seq<char>,
    pub originator: Seq<char>,
    pub reasoning_effort: Option<EffortView>,
    pub reasoning_summary: Option<SummaryView>,
}

impl<C> View for OpenAICodex<C> {
    type V = OpenAICodexView<C>;

    closed spec fn view(&self) -> OpenAICodexView<C> {
        OpenAICodexView {
            credentials: self.credentials,
            base_url: self.base_url@,
            originator: self.originator@,
            reasoning_effort: optional_effort(self.reasoning_effort),
            reasoning_summary: optional_summary(self.reasoning_summary),
        }
    }
}

impl<C> OpenAICodexView<C> {
    /// The endpoint with its defaults: automatic summaries, no effort.
    pub open spec fn with_defaults(credentials: C) -> OpenAICodexView<C> {
        OpenAICodexView {
            credentials,
            base_url: "https://chatgpt.com/backend-api"@,
            originator: "tkach"@,
            reasoning_effort: None,
            reasoning_summary: Some(SummaryView::Auto),
        }
    }

    /// Where requests go.
    pub open spec fn url(self) -> Seq<char> {
        without_trailing(self.base_url, '/') + "/codex/responses"@
    }

    /// The body of a request.
    pub open spec fn body(self, request: RequestView) -> Map<Seq<char>, JsonView> {
        codex_fields(
            request,
            effort_for(request.thinking, self.reasoning_effort),
            summary_for(request.thinking, self.reasoning_summary),
        )
    }

    /// The request that is sent.
    pub open spec fn http_request(
        self,
        credentials: CodexCredentials,
        request: RequestView,
    ) -> HttpRequestView {
        HttpRequestView {
            url: self.url(),
            bearer: credentials.access_token@,
            headers: seq![
                ("chatgpt-account-id"@, credentials.account_id@),
                ("OpenAI-Beta"@, "responses=experimental"@),
                ("originator"@, self.originator),
                ("accept"@, "text/event-stream"@),
                ("content-type"@, "application/json"@),
            ],
            body: JsonView::Object(self.body(request)),
        }
    }
}

impl OpenAICodex<CodexCredentials> {
    /// The endpoint with its defaults and one fixed pair of credentials.
    pub fn with_static_credentials(credentials: CodexCredentials) -> (r: OpenAICodex<
        CodexCredentials,
    >)
        ensures
            r@ == OpenAICodexView::with_defaults(credentials),
    {
        OpenAICodex::new(credentials)
    }
}

impl<C> OpenAICodex<C> {
    /// The endpoint with its defaults: automatic summaries, no effort.
    pub fn new(credentials: C) -> (r: OpenAICodex<C>)
        ensures
            r@ == OpenAICodexView::with_defaults(credentials),
    {
        OpenAICodex {
            credentials,
            base_url: "https://chatgpt.com/backend-api".to_owned(),
            originator: "tkach".to_owned(),
            reasoning_effort: None,
            reasoning_summary: Some(OpenAISummary::Auto),
        }
    }

    /// Another endpoint root; `/codex/responses` is always appended.
    pub fn with_base_url(self, base_url: &str) -> (r: OpenAICodex<C>)
        ensures
            r@ == (OpenAICodexView { base_url: base_url@, ..self@ }),
    {
        OpenAICodex { base_url: base_url.to_owned(), ..self }
    }

    /// Another `originator` header.
    pub fn with_originator(self, originator: &str) -> (r: OpenAICodex<C>)
        ensures
            r@ == (OpenAICodexView { originator: originator@, ..self@ }),
    {
        OpenAICodex { originator: originator.to_owned(), ..self }
    }

    /// Another summary level.
    pub fn with_reasoning_summary(self, summary: OpenAISummary) -> (r: OpenAICodex<C>)
        ensures
            r@ == (OpenAICodexView { reasoning_summary: Some(summary@), ..self@ }),
    {
        OpenAICodex { reasoning_summary: Some(summary), ..self }
    }

    /// An effort level.
    pub fn with_reasoning_effort(self, effort: OpenAIEffort) -> (r: OpenAICodex<C>)
        ensures
            r@ == (OpenAICodexView { reasoning_effort: Some(effort@), ..self@ }),
    {
        OpenAICodex { reasoning_effort: Some(effort), ..self }
    }

    /// No `reasoning` block.
    pub fn without_reasoning(self) -> (r: OpenAICodex<C>)
        ensures
            r@ == (OpenAICodexView { reasoning_effort: None, reasoning_summary: None, ..self@ }),
    {
        OpenAICodex { reasoning_effort: None, reasoning_summary: None, ..self }
    }

    /// Where fresh credentials come from.
    pub fn credentials(&self) -> (r: &C)
        ensures
            *r == self@.credentials,
    {
        &self.credentials
    }

    /// The configured effort.
    pub fn reasoning_effort(&self) -> (r: Option<&OpenAIEffort>)
        ensures
            match r {
                Some(effort) => self@.reasoning_effort == Some(effort@),
                None => self@.reasoning_effort is None,
            },
    {
        match &self.reasoning_effort {
            Some(effort) => Some(effort),
            None => None,
        }
    }

    /// The configured summary level.
    pub fn reasoning_summary(&self) -> (r: Option<&OpenAISummary>)
        ensures
            match r {
                Some(summary) => self@.reasoning_summary == Some(summary@),
                None => self@.reasoning_summary is None,
            },
    {
        match &self.reasoning_summary {
            Some(summary) => Some(summary),
            None => None,
        }
    }

    /// Where requests go.
    pub fn responses_url(&self) -> (r: String)
        ensures
            r@ == self@.url(),
    {
        let mut url: String = trim_end_char(self.base_url.as_str(), '/');
        url.append("/codex/responses");
        url
    }

    /// The body of a request.
    pub fn request_body(&self, request: &Request) -> (r: Json)
        ensures
            r@ == JsonView::Object(self@.body(request@)),
    {
        build_request_body(
            request,
            &effective_reasoning_effort(request, &self.reasoning_effort),
            &effective_reasoning_summary(request, &self.reasoning_summary),
        )
    }

    /// The request that is sent.
    pub fn http_request(&self, credentials: &CodexCredentials, request: &Request) -> (r:
        HttpRequest)
        ensures
            r@ == self@.http_request(*credentials, request@),
    {
        let mut headers: Vec<(String, String)> = Vec::new();
        assert(headers_view(headers@) =~= Seq::empty());
        push_header(&mut headers, "chatgpt-account-id", credentials.account_id.as_str());
        push_header(&mut headers, "OpenAI-Beta", "responses=experimental");
        push_header(&mut headers, "originator", self.originator.as_str());
        push_header(&mut headers, "accept", "text/event-stream");
        push_header(&mut headers, "content-type", "application/json");
        let r: HttpRequest = HttpRequest {
            url: self.responses_url(),
            bearer: credentials.access_token.clone(),
            headers,
            body: self.request_body(request),
        };
        assert(r@.headers =~= self@.http_request(*credentials, request@).headers);
        r
    }

    /// The endpoint as a log may show it: root and originator, and nothing of
    /// the credentials.
    pub fn debug_text(&self) -> (r: String)
        ensures
            r@ == "OpenAICodex { base_url: "@ + quoted(self@.base_url) + ", originator: "@
                + quoted(self@.originator) + " }"@,
    {
        let mut text: String = "OpenAICodex { base_url: ".to_owned();
        text.append(quote(self.base_url.as_str()).as_str());
        text.append(", originator: ");
        text.append(quote(self.originator.as_str()).as_str());
        text.append(" }");
        text
    }
}

/// An answer under collection.
#[verifier::ext_equal]
pub struct CollectedView {
    pub content: Seq<ContentView>,
    /// Text that is not a block yet.
    pub text: Seq<char>,
    pub stop_reason: StopReason,
    pub usage: Usage,
    pub done: bool,
}

impl CollectedView {
    /// Nothing collected.
    pub open spec fn fresh() -> CollectedView {
        CollectedView {
            content: Seq::empty(),
            text: Seq::empty(),
            stop_reason: StopReason::EndTurn,
            usage: Usage::zero(),
            done: false,
        }
    }

    /// After a block that came whole.
    pub open spec fn with_block(self, block: ContentView) -> CollectedView {
        CollectedView {
            content: with_text_block(self.content, self.text).push(block),
            text: Seq::empty(),
            ..self
        }
    }

    /// After one event; nothing counts behind the end mark.
    pub open spec fn after(self, event: StreamEventView) -> CollectedView {
        if self.done {
            self
        } else {
            match event {
                StreamEventView::ContentDelta(delta) => CollectedView {
                    text: self.text + delta,
                    ..self
                },
                StreamEventView::ThinkingBlock { text, provider, metadata } => self.with_block(
                    ContentView::Thinking { text, provider, metadata },
                ),
                StreamEventView::ToolUse { id, name, input } => self.with_block(
                    ContentView::ToolUse { id, name, input },
                ),
                StreamEventView::MessageDelta { stop_reason } => CollectedView {
                    stop_reason,
                    ..self
                },
                StreamEventView::Usage(usage) => CollectedView { usage, ..self },
                StreamEventView::Done => CollectedView { done: true, ..self },
                _ => self,
            }
        }
    }

    /// The answer.
    pub open spec fn answer(self) -> ResponseView {
        ResponseView {
            content: with_text_block(self.content, self.text),
            stop_reason: self.stop_reason,
            usage: self.usage,
        }
    }
}

/// What a stream's items come to up to the end mark: the answer under
/// collection, or the first failure before the mark.
pub open spec fn collected(items: Seq<ItemView>) -> Result<CollectedView, ProviderErrorView>
    decreases items.len(),
{
    if items.len() == 0 {
        Ok(CollectedView::fresh())
    } else {
        match collected(items.drop_last()) {
            Err(error) => Err(error),
            Ok(state) => if state.done {
                Ok(state)
            } else {
                match items.last() {
                    Ok(event) => Ok(state.after(event)),
                    Err(error) => Err(error),
                }
            },
        }
    }
}

/// Collects an answer from a provider's event stream: text deltas become one
/// block up to the next block that comes whole, the last stop reason and the
/// last token counts stand.
#[derive(Debug)]
pub struct ResponseCollector {
    content: Vec<Content>,
    text: String,
    stop_reason: StopReason,
    usage: Usage,
    done: bool,
}

impl View for ResponseCollector {
    type V = CollectedView;

    closed spec fn view(&self) -> CollectedView {
        CollectedView {
            content: views(self.content@),
            text: self.text@,
            stop_reason: self.stop_reason,
            usage: self.usage,
            done: self.done,
        }
    }
}

impl ResponseCollector {
    /// Nothing collected.
    pub fn new() -> (r: ResponseCollector)
        ensures
            r@ == CollectedView::fresh(),
    {
        let r: ResponseCollector = ResponseCollector {
            content: Vec::new(),
            text: String::new(),
            stop_reason: StopReason::EndTurn,
            usage: Usage::default(),
            done: false,
        };
        assert(r@ =~~= CollectedView::fresh());
        r
    }

    /// Takes one event; true where the answer is complete.
    pub fn push(&mut self, event: StreamEvent) -> (r: bool)
        ensures
            final(self)@ == old(self)@.after(event@),
            r == final(self)@.done,
    {
        if self.done {
            return true;
        }
        match event {
            StreamEvent::ContentDelta(delta) => {
                self.text.append(delta.as_str());
            },
            StreamEvent::ThinkingBlock { text, provider, metadata } => {
                flush_text(&mut self.text, &mut self.content);
                let block: Content = Content::Thinking { text, provider, metadata };
                proof {
                    views_push(self.content@, block);
                }
                self.content.push(block);
            },
            StreamEvent::ToolUse { id, name, input } => {
                flush_text(&mut self.text, &mut self.content);
                let block: Content = Content::ToolUse { id, name, input };
                proof {
                    views_push(self.content@, block);
                }
                self.content.push(block);
            },
            StreamEvent::MessageDelta { stop_reason } => {
                self.stop_reason = stop_reason;
            },
            StreamEvent::Usage(usage) => {
                self.usage = usage;
            },
            StreamEvent::Done => {
                self.done = true;
            },
            _ => {},
        }
        self.done
    }

    /// The answer.
    pub fn finish(self) -> (r: Response)
        ensures
            r@ == self@.answer(),
    {
        let ResponseCollector { content: mut content, text: mut text, stop_reason, usage, .. } =
            self;
        flush_text(&mut text, &mut content);
        Response { content, stop_reason, usage }
    }
}

/// Collects the answer from the items of a whole stream. The first failure
/// before the end mark is the result instead.
pub fn complete(items: Vec<Result<StreamEvent, ProviderError>>) -> (r: Result<
    Response,
    ProviderError,
>)
    ensures
        decoded_view(r) == match collected(items_view(items@)) {
            Ok(state) => Ok(state.answer()),
            Err(error) => Err(error),
        },
{
    let ghost given = items@;
    let ghost all = items_view(given);
    let mut collector: ResponseCollector = ResponseCollector::new();
    assert(all.take(0) =~= Seq::<ItemView>::empty());
    for item in it: items
        invariant
            it.seq() == given,
            all == items_view(given),
            collected(all.take(it.index() as int)) == Ok::<CollectedView, ProviderErrorView>(
                collector@,
            ),
    {
        let ghost at = it.index() as int;
        proof {
            assert(given[at] == item);
            assert(all.take(at + 1).drop_last() =~= all.take(at));
            assert(all.take(at + 1).last() == item_view(item));
        }
        if !collector.done {
            match item {
                Ok(event) => {
                    let _over: bool = collector.push(event);
                },
                Err(error) => {
                    proof {
                        failure_stands(all, at + 1);
                    }
                    return Err(error);
                },
            }
        }
    }
    assert(all.take(all.len() as int) =~= all);
    Ok(collector.finish())
}

proof fn failure_stands(items: Seq<ItemView>, upto: int)
    requires
        0 <= upto <= items.len(),
        collected(items.take(upto)) is Err,
    ensures
        collected(items) == collected(items.take(upto)),
    decreases items.len() - upto,
{
    if upto == items.len() {
        assert(items.take(upto) =~= items);
    } else {
        assert(items.take(upto + 1).drop_last() =~= items.take(upto));
        failure_stands(items, upto + 1);
    }
}

/// A request asks for reasoning exactly as its own thinking configuration
/// says: an effort goes before what is configured and brings a summary, a
/// disabled call has no `reasoning` block at all, and a budget or no
/// configuration leaves what is configured.
pub proof fn codex_reasoning_follows_the_call<C>(provider: OpenAICodexView<C>, request: RequestView)
    ensures
        match request.thinking {
            Some(ThinkingConfig::Disabled) => !provider.body(request).contains_key("reasoning"@),
            Some(ThinkingConfig::Effort(effort)) => provider.body(request).contains_key(
                "reasoning"@,
            ) && Some(provider.body(request)["reasoning"@]) == reasoning_of(
                Some(EffortView::of_call(effort)),
                match provider.reasoning_summary {
                    Some(summary) => Some(summary),
                    None => Some(SummaryView::Auto),
                },
            ),
            Some(ThinkingConfig::Budget(_)) | None => match reasoning_of(
                provider.reasoning_effort,
                provider.reasoning_summary,
            ) {
                Some(block) => provider.body(request).contains_key("reasoning"@)
                    && provider.body(request)["reasoning"@] == block,
                None => !provider.body(request).contains_key("reasoning"@),
            },
        },
{
    reasoning_key_apart();
}

proof fn envelope_keys_apart()
    ensures
        "store"@ != "stream"@,
        "store"@ != "include"@,
        "store"@ != "max_output_tokens"@,
        "store"@ != "model"@,
        "store"@ != "input"@,
        "store"@ != "text"@,
        "store"@ != "instructions"@,
        "store"@ != "temperature"@,
        "store"@ != "reasoning"@,
        "store"@ != "tools"@,
        "store"@ != "tool_choice"@,
        "store"@ != "parallel_tool_calls"@,
        "stream"@ != "include"@,
        "stream"@ != "max_output_tokens"@,
        "stream"@ != "model"@,
        "stream"@ != "input"@,
        "stream"@ != "text"@,
        "stream"@ != "instructions"@,
        "stream"@ != "temperature"@,
        "stream"@ != "reasoning"@,
        "stream"@ != "tools"@,
        "stream"@ != "tool_choice"@,
        "stream"@ != "parallel_tool_calls"@,
        "include"@ != "max_output_tokens"@,
        "include"@ != "model"@,
        "include"@ != "input"@,
        "include"@ != "text"@,
        "include"@ != "instructions"@,
        "include"@ != "temperature"@,
        "include"@ != "reasoning"@,
        "include"@ != "tools"@,
        "include"@ != "tool_choice"@,
        "include"@ != "parallel_tool_calls"@,
        "max_output_tokens"@ != "model"@,
        "max_output_tokens"@ != "input"@,
        "max_output_tokens"@ != "text"@,
        "max_output_tokens"@ != "instructions"@,
        "max_output_tokens"@ != "temperature"@,
        "max_output_tokens"@ != "reasoning"@,
        "max_output_tokens"@ != "tools"@,
        "max_output_tokens"@ != "tool_choice"@,
        "max_output_tokens"@ != "parallel_tool_calls"@,
{
    reveal_strlit("store");
    assert("store"@.len() == 5);
    reveal_strlit("stream");
    assert("stream"@.len() == 6);
    reveal_strlit("include");
    assert("include"@.len() == 7);
    reveal_strlit("max_output_tokens");
    assert("max_output_tokens"@.len() == 17);
    reveal_strlit("model");
    assert("model"@.len() == 5);
    reveal_strlit("input");
    assert("input"@.len() == 5);
    reveal_strlit("text");
    assert("text"@.len() == 4);
    reveal_strlit("instructions");
    assert("instructions"@.len() == 12);
    reveal_strlit("temperature");
    assert("temperature"@.len() == 11);
    reveal_strlit("reasoning");
    assert("reasoning"@.len() == 9);
    reveal_strlit("tools");
    assert("tools"@.len() == 5);
    reveal_strlit("tool_choice");
    assert("tool_choice"@.len() == 11);
    reveal_strlit("parallel_tool_calls");
    assert("parallel_tool_calls"@.len() == 19);
    assert("store"@[0] == 's');
    assert("model"@[0] == 'm');
    assert("input"@[0] == 'i');
    assert("tools"@[0] == 't');
}

/// Whatever is configured and asked, a request streams, is not stored, asks
/// for the encrypted reasoning and sets no output limit.
pub proof fn codex_envelope_is_fixed<C>(provider: OpenAICodexView<C>, request: RequestView)
    ensures
        provider.body(request).contains_key("stream"@),
        provider.body(request)["stream"@] == JsonView::Bool(true),
        provider.body(request).contains_key("store"@),
        provider.body(request)["store"@] == JsonView::Bool(false),
        provider.body(request).contains_key("include"@),
        provider.body(request)["include"@] == encrypted_include(),
        !provider.body(request).contains_key("max_output_tokens"@),
{
    envelope_keys_apart();
}

/// The endpoint of which nothing else is said: the subscription's root, this
/// library as originator, and automatic summaries without an effort.
pub proof fn codex_begins_with_defaults<C>(credentials: C)
    ensures
        ({
            let fresh = OpenAICodexView::with_defaults(credentials);
            &&& fresh.credentials == credentials
            &&& fresh.base_url == "https://chatgpt.com/backend-api"@
            &&& fresh.originator == "tkach"@
            &&& fresh.reasoning_effort is None
            &&& fresh.reasoning_summary is Some && fresh.reasoning_summary->0.wire() == "auto"@
        }),
{
}

} // verus!
