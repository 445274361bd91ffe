//! The public Responses endpoint: configuration and requests.
use crate::json::{fields_view, set_field, with_optional, Json, JsonView};
use crate::provider::{Request, RequestView, ThinkingConfig};
use crate::providers::effort::{
    map_thinking_effort, EffortView, OpenAIEffort, OpenAISummary, SummaryView,
};
use crate::providers::http::{headers_view, push_header, HttpRequest, HttpRequestView};
use crate::providers::input::{
    build_input, encrypted_include, encrypted_include_list, input_items, reasoning_key_apart,
    set_prompt, set_tools, with_prompt, with_tools,
};
use crate::text::{trim_end_char, without_trailing};
use vstd::prelude::*;
use vstd::string::*;

verus! {

/// A reasoning configuration.
#[derive(Debug, PartialEq, Eq)]
pub struct ReasoningConfig {
    pub effort: OpenAIEffort,
    pub summary: OpenAISummary,
}

/// What a [`ReasoningConfig`] stands for.
#[verifier::ext_equal]
pub struct ReasoningConfigView {
    pub effort: EffortView,
    pub summary: SummaryView,
}

impl View for ReasoningConfig {
    type V = ReasoningConfigView;

    open spec fn view(&self) -> ReasoningConfigView {
        ReasoningConfigView { effort: self.effort@, summary: self.summary@ }
    }
}

/// What an optional reasoning configuration stands for.
pub open spec fn optional_reasoning(config: Option<ReasoningConfig>) -> Option<
    ReasoningConfigView,
> {
    match config {
        Some(c) => Some(c@),
        None => None,
    }
}

/// Which reasoning a call asks for. An effort of the call goes before the
/// configured one and keeps the configured summary; a disabled call asks for
/// none; a token budget means nothing on this wire.
pub open spec fn reasoning_for(
    thinking: Option<ThinkingConfig>,
    configured: Option<ReasoningConfigView>,
) -> Option<ReasoningConfigView> {
    match thinking {
        Some(ThinkingConfig::Disabled) => None,
        Some(ThinkingConfig::Effort(effort)) => Some(
            ReasoningConfigView {
                effort: EffortView::of_call(effort),
                summary: match configured {
                    Some(c) => c.summary,
                    None => SummaryView::Auto,
                },
            },
        ),
        Some(ThinkingConfig::Budget(_)) | None => configured,
    }
}

/// Works out which reasoning a call asks for.
pub fn effective_reasoning(request: &Request, configured: Option<&ReasoningConfig>) -> (r: Option<
    ReasoningConfig,
>)
    ensures
        optional_reasoning(r) == reasoning_for(
            request@.thinking,
            match configured {
                Some(c) => Some(c@),
                None => None,
            },
        ),
{
    match &request.thinking {
        Some(ThinkingConfig::Disabled) => None,
        Some(ThinkingConfig::Effort(effort)) => Some(
            ReasoningConfig {
                effort: map_thinking_effort(effort),
                summary: match configured {
                    Some(c) => c.summary.clone(),
                    None => OpenAISummary::Auto,
                },
            },
        ),
        Some(ThinkingConfig::Budget(_)) | None => match configured {
            Some(c) => Some(
                ReasoningConfig { effort: c.effort.clone(), summary: c.summary.clone() },
            ),
            None => None,
        },
    }
}

/// The `reasoning` block of a request.
pub open spec fn reasoning_block(config: ReasoningConfigView) -> JsonView {
    JsonView::Object(
        map![
            "effort"@ => JsonView::Text(config.effort.wire()),
            "summary"@ => JsonView::Text(config.summary.wire()),
        ],
    )
}

/// The body of a request.
pub open spec fn request_fields(
    request: RequestView,
    reasoning: Option<ReasoningConfigView>,
    include_encrypted_reasoning: bool,
) -> Map<Seq<char>, JsonView> {
    let base =
        map![
        "model"@ => JsonView::Text(request.model),
        "store"@ => JsonView::Bool(false),
        "stream"@ => JsonView::Bool(false),
        "input"@ => JsonView::Array(input_items(request.messages)),
        "max_output_tokens"@ => JsonView::Int(request.max_tokens as int),
    ];
    let reasoned = with_optional(
        with_prompt(base, request),
        "reasoning"@,
        match reasoning {
            Some(config) => Some(reasoning_block(config)),
            None => None,
        },
    );
    let included = if include_encrypted_reasoning {
        reasoned.insert("include"@, encrypted_include())
    } else {
        reasoned
    };
    with_tools(included, request.tools)
}

/// Builds the body of a request.
pub fn build_request_body(
    request: &Request,
    reasoning: Option<&ReasoningConfig>,
    include_encrypted_reasoning: bool,
) -> (r: Json)
    ensures
        r@ == JsonView::Object(
            request_fields(
                request@,
                match reasoning {
                    Some(config) => Some(config@),
                    None => None,
                },
                include_encrypted_reasoning,
            ),
        ),
{
    Json::Object(body_fields(request, reasoning, include_encrypted_reasoning))
}

fn body_fields(
    request: &Request,
    reasoning: Option<&ReasoningConfig>,
    include_encrypted_reasoning: bool,
) -> (r: Vec<(String, Json)>)
    ensures
        fields_view(r@) == request_fields(
            request@,
            match reasoning {
                Some(config) => Some(config@),
                None => None,
            },
            include_encrypted_reasoning,
        ),
{
    let mut fields: Vec<(String, Json)> = Vec::new();
    set_field(&mut fields, "model", Json::string(request.model.as_str()));
    set_field(&mut fields, "store", Json::Bool(false));
    set_field(&mut fields, "stream", Json::Bool(false));
    set_field(&mut fields, "input", Json::array(build_input(&request.messages)));
    set_field(&mut fields, "max_output_tokens", Json::unsigned(request.max_tokens as u64));
    set_prompt(&mut fields, request);
    if let Some(config) = reasoning {
        let mut block: Vec<(String, Json)> = Vec::new();
        set_field(&mut block, "effort", Json::string(config.effort.as_wire()));
        set_field(&mut block, "summary", Json::string(config.summary.as_wire()));
        set_field(&mut fields, "reasoning", Json::Object(block));
    }
    if include_encrypted_reasoning {
        set_field(&mut fields, "include", encrypted_include_list());
    }
    set_tools(&mut fields, &request.tools);
    fields
}

/// Configuration of the public Responses endpoint.
///
/// An effort of the call goes before the configured reasoning, a disabled
/// call drops the `reasoning` block, and a token budget is passed over.
pub struct OpenAIResponses {
    api_key: String,
    base_url: String,
    reasoning: Option<ReasoningConfig>,
    include_encrypted_reasoning: bool,
}

/// What an [`OpenAIResponses`] stands for.
#[verifier::ext_equal]
pub struct OpenAIResponsesView {
    pub api_key: Seq<char>,
    pub base_url: Seq<char>,
    pub reasoning: Option<ReasoningConfigView>,
    pub include_encrypted_reasoning: bool,
}

impl View for OpenAIResponses {
    type V = OpenAIResponsesView;

    closed spec fn view(&self) -> OpenAIResponsesView {
        OpenAIResponsesView {
            api_key: self.api_key@,
            base_url: self.base_url@,
            reasoning: optional_reasoning(self.reasoning),
            include_encrypted_reasoning: self.include_encrypted_reasoning,
        }
    }
}

impl OpenAIResponsesView {
    /// Where requests go.
    pub open spec fn url(self) -> Seq<char> {
        without_trailing(self.base_url, '/') + "/responses"@
    }

    /// The body of a request.
    pub open spec fn body(self, request: RequestView) -> Map<Seq<char>, JsonView> {
        request_fields(
            request,
            reasoning_for(request.thinking, self.reasoning),
            self.include_encrypted_reasoning,
        )
    }

    /// The request for a buffered answer.
    pub open spec fn complete_request(self, request: RequestView) -> HttpRequestView {
        HttpRequestView {
            url: self.url(),
            bearer: self.api_key,
            headers: seq![("content-type"@, "application/json"@)],
            body: JsonView::Object(self.body(request)),
        }
    }

    /// The request for an event stream.
    pub open spec fn stream_request(self, request: RequestView) -> HttpRequestView {
        HttpRequestView {
            url: self.url(),
            bearer: self.api_key,
            headers: seq![
                ("content-type"@, "application/json"@),
                ("accept"@, "text/event-stream"@),
            ],
            body: JsonView::Object(self.body(request).insert("stream"@, JsonView::Bool(true))),
        }
    }
}

impl OpenAIResponses {
    /// The endpoint with its defaults: no reasoning block, encrypted
    /// reasoning included.
    pub fn new(api_key: &str) -> (r: OpenAIResponses)
        ensures
            r@ == (OpenAIResponsesView {
                api_key: api_key@,
                base_url: "https://api.openai.com/v1"@,
                reasoning: None,
                include_encrypted_reasoning: true,
            }),
    {
        OpenAIResponses {
            api_key: api_key.to_owned(),
            base_url: "https://api.openai.com/v1".to_owned(),
            reasoning: None,
            include_encrypted_reasoning: true,
        }
    }

    /// Another endpoint root, without the trailing `/responses`.
    pub fn with_base_url(self, base_url: &str) -> (r: OpenAIResponses)
        ensures
            r@ == (OpenAIResponsesView { base_url: base_url@, ..self@ }),
    {
        OpenAIResponses { base_url: base_url.to_owned(), ..self }
    }

    /// Asks for reasoning with an effort and a summary level.
    pub fn with_reasoning(self, effort: OpenAIEffort, summary: OpenAISummary) -> (r:
        OpenAIResponses)
        ensures
            r@ == (OpenAIResponsesView {
                reasoning: Some(
                    ReasoningConfigView { effort: effort@, summary: summary@ },
                ),
                ..self@
            }),
    {
        OpenAIResponses { reasoning: Some(ReasoningConfig { effort, summary }), ..self }
    }

    /// Does not ask for encrypted reasoning.
    pub fn without_encrypted_reasoning(self) -> (r: OpenAIResponses)
        ensures
            r@ == (OpenAIResponsesView { include_encrypted_reasoning: false, ..self@ }),
    {
        OpenAIResponses { include_encrypted_reasoning: false, ..self }
    }

    /// Where requests go.
    pub fn responses_url(&self) -> (r: String)
        ensures
            r@ == self@.url(),
    {
        let mut url: String = trim_end_char(self.base_url.as_str(), '/');
        url.append("/responses");
        url
    }

    fn fields_for(&self, request: &Request) -> (r: Vec<(String, Json)>)
        ensures
            fields_view(r@) == self@.body(request@),
    {
        let configured: Option<&ReasoningConfig> = match &self.reasoning {
            Some(config) => Some(config),
            None => None,
        };
        let reasoning: Option<ReasoningConfig> = effective_reasoning(request, configured);
        let chosen: Option<&ReasoningConfig> = match &reasoning {
            Some(config) => Some(config),
            None => None,
        };
        body_fields(request, chosen, self.include_encrypted_reasoning)
    }

    /// The request for a buffered answer.
    pub fn complete_request(&self, request: &Request) -> (r: HttpRequest)
        ensures
            r@ == self@.complete_request(request@),
    {
        let mut headers: Vec<(String, String)> = Vec::new();
        assert(headers_view(headers@) =~= Seq::empty());
        push_header(&mut headers, "content-type", "application/json");
        let r: HttpRequest = HttpRequest {
            url: self.responses_url(),
            bearer: self.api_key.clone(),
            headers,
            body: Json::Object(self.fields_for(request)),
        };
        assert(r@.headers =~= self@.complete_request(request@).headers);
        r
    }

    /// The request for an event stream.
    pub fn stream_request(&self, request: &Request) -> (r: HttpRequest)
        ensures
            r@ == self@.stream_request(request@),
    {
        let mut headers: Vec<(String, String)> = Vec::new();
        assert(headers_view(headers@) =~= Seq::empty());
        push_header(&mut headers, "content-type", "application/json");
        push_header(&mut headers, "accept", "text/event-stream");
        let mut fields: Vec<(String, Json)> = self.fields_for(request);
        set_field(&mut fields, "stream", Json::Bool(true));
        let r: HttpRequest = HttpRequest {
            url: self.responses_url(),
            bearer: self.api_key.clone(),
            headers,
            body: Json::Object(fields),
        };
        assert(r@.headers =~= self@.stream_request(request@).headers);
        r
    }
}

/// A request asks for reasoning exactly as its own thinking configuration
/// says: an effort goes before what is configured, a disabled call has no
/// `reasoning` block at all, and a budget or no configuration leaves what is
/// configured.
pub proof fn reasoning_block_follows_the_call(provider: OpenAIResponsesView, request: RequestView)
    ensures
        match request.thinking {
            Some(ThinkingConfig::Disabled) => !provider.body(request).contains_key("reasoning"@),
            Some(ThinkingConfig::Effort(effort)) => provider.body(request).contains_key(
                "reasoning"@,
            ) && provider.body(request)["reasoning"@] == reasoning_block(
                ReasoningConfigView {
                    effort: EffortView::of_call(effort),
                    summary: match provider.reasoning {
                        Some(config) => config.summary,
                        None => SummaryView::Auto,
                    },
                },
            ),
            Some(ThinkingConfig::Budget(_)) | None => match provider.reasoning {
                Some(config) => provider.body(request).contains_key("reasoning"@)
                    && provider.body(request)["reasoning"@] == reasoning_block(config),
                None => !provider.body(request).contains_key("reasoning"@),
            },
        },
{
    reasoning_key_apart();
}

} // verus!
