//! A tool that spawns a nested agent.
use crate::agent::{AgentResult, AgentResultView};
use crate::builder::{Agent, AgentBuilder, AgentView};
use crate::concurrency::forked;
use crate::executor::ToolExecutor;
use crate::json::{has, set_field, told, Json, JsonNumber, JsonView};
use crate::message::{optional_text, ContentView, Message, MessageView, Role};
use crate::policy::{AllowList, ScopedPolicy, ToolPolicy};
use crate::provider::{SystemBlockView, ThinkingConfig};
use crate::providers::response::{get_text, text_field};
use crate::text::{decimal, decimal_text, views, views_push};
use crate::tool::{ToolClass, ToolOutput, ToolOutputView, ToolSpec, ToolSpecView};
use std::sync::Arc;
use vstd::prelude::*;
use vstd::string::*;

verus! {

/// A tool that spawns a nested agent with its parent's tools.
#[derive(Debug)]
pub struct SubAgent {
    model: String,
    system: Option<String>,
    max_turns: usize,
    max_tokens: u32,
    temperature: Option<JsonNumber>,
    name: String,
    description: String,
    tools_allow: Option<Vec<String>>,
    filter_tool_definitions: bool,
    thinking: Option<ThinkingConfig>,
}

/// What a [`SubAgent`] stands for.
#[verifier::ext_equal]
pub struct SubAgentView {
    pub model: Seq<char>,
    pub system: Option<Seq<char>>,
    pub max_turns: usize,
    pub max_tokens: u32,
    pub temperature: Option<JsonNumber>,
    pub name: Seq<char>,
    pub description: Seq<char>,
    pub tools_allow: Option<Seq<Seq<char>>>,
    pub filter_tool_definitions: bool,
    pub thinking: Option<ThinkingConfig>,
}

impl View for SubAgent {
    type V = SubAgentView;

    closed spec fn view(&self) -> SubAgentView {
        SubAgentView {
            model: self.model@,
            system: optional_text(self.system),
            max_turns: self.max_turns,
            max_tokens: self.max_tokens,
            temperature: self.temperature,
            name: self.name@,
            description: self.description@,
            tools_allow: match self.tools_allow {
                Some(names) => Some(views(names@)),
                None => None,
            },
            filter_tool_definitions: self.filter_tool_definitions,
            thinking: self.thinking,
        }
    }
}

/// The description that a sub-agent has of itself unless told otherwise.
pub open spec fn default_description() -> Seq<char> {
    "Spawn a sub-agent to handle a complex task autonomously. The sub-agent gets its own conversation context and inherits the parent agent's full tool set. Use this for tasks that require multi-step reasoning or focused exploration."@
}

/// One property of the input: a string with a description.
pub open spec fn string_property(description: Seq<char>) -> JsonView {
    JsonView::Object(
        map![
            "type"@ => JsonView::Text("string"@),
            "description"@ => JsonView::Text(description),
        ],
    )
}

/// The schema of the input: a prompt, and a system prompt that may be there.
pub open spec fn input_schema_view() -> JsonView {
    JsonView::Object(
        map![
            "type"@ => JsonView::Text("object"@),
            "properties"@ => JsonView::Object(
                map![
                    "prompt"@ => string_property("The task for the sub-agent to perform"@),
                    "system"@ => string_property(
                        "System prompt for the sub-agent (optional, overrides the default)"@,
                    ),
                ],
            ),
            "required"@ => JsonView::Array(seq![JsonView::Text("prompt"@)]),
        ],
    )
}

fn property(description: &str) -> (r: Json)
    ensures
        r@ == string_property(description@),
{
    let mut fields: Vec<(String, Json)> = Vec::new();
    set_field(&mut fields, "type", Json::string("string"));
    set_field(&mut fields, "description", Json::string(description));
    Json::Object(fields)
}

impl SubAgentView {
    /// Whether a nested agent may use a tool that its parent may use.
    pub open spec fn admits(self, name: Seq<char>) -> bool {
        match self.tools_allow {
            Some(names) => names.contains(name),
            None => true,
        }
    }

    /// The system prompt of a nested agent: that of the call, or else the
    /// configured one.
    pub open spec fn system_for(self, input: JsonView) -> Option<Seq<char>> {
        match text_field(input, "system"@) {
            Some(system) => Some(system),
            None => self.system,
        }
    }

    /// Whether an agent is the one that a call runs one level below: the
    /// configured model, limits and settings, the call's system prompt or else
    /// the configured one, the parent's tools, and of those that the parent may
    /// use the ones that the sub-agent admits.
    pub open spec fn nests<P: ToolPolicy + ?Sized>(
        self,
        input: JsonView,
        depth: usize,
        max_depth: usize,
        parent: ToolExecutor<ScopedPolicy<P>>,
        agent: AgentView<ScopedPolicy<P>>,
    ) -> bool {
        &&& agent.model == self.model
        &&& agent.system == match self.system_for(input) {
            Some(system) => Some(seq![SystemBlockView { text: system, cache_control: None }]),
            None => None,
        }
        &&& agent.max_turns == self.max_turns
        &&& agent.max_tokens == self.max_tokens
        &&& agent.temperature == self.temperature
        &&& agent.thinking == self.thinking
        &&& agent.cache_tools is None
        &&& agent.max_depth == max_depth
        &&& agent.depth == depth + 1
        &&& agent.executor.tools() == parent.tools()
        &&& forked(parent.limits(), agent.executor.limits())
        &&& forall|name: Seq<char>|
            #[trigger] agent.executor.allows(name) == (parent.allows(name) && self.admits(name))
        &&& agent.tool_definition_filter == if self.filter_tool_definitions {
            Some(
                admitted_names(
                    parent.tools(),
                    |name: Seq<char>| parent.allows(name) && self.admits(name),
                ),
            )
        } else {
            None
        }
    }
}

/// Whatever is configured, a system prompt of the call is the nested agent's;
/// the configured one is used exactly where the call gives none.
pub proof fn the_calls_system_prompt_goes_first(sub_agent: SubAgentView, input: JsonView)
    ensures
        told(input, "system"@) is Some ==> sub_agent.system_for(input) == told(input, "system"@),
        told(input, "system"@) is None ==> sub_agent.system_for(input) == sub_agent.system,
{
}

/// A nested agent goes no further than its parent and its call allow: it is one
/// level deeper and within the limit, it may use exactly those of its parent's
/// tools that are on the list, where there is one, and it speaks, thinks and
/// stops as the sub-agent is configured.
pub proof fn nested_agents_stay_inside<P: ToolPolicy + ?Sized>(
    sub_agent: SubAgentView,
    input: JsonView,
    depth: usize,
    max_depth: usize,
    parent: ToolExecutor<ScopedPolicy<P>>,
    agent: AgentView<ScopedPolicy<P>>,
    system: Seq<char>,
    name: Seq<char>,
)
    requires
        depth < max_depth,
        sub_agent.nests(input, depth, max_depth, parent, agent),
    ensures
        depth < agent.depth <= max_depth,
        agent.max_depth == max_depth,
        told(input, "system"@) == Some(system) ==> agent.system is Some && agent.system->0.len()
            == 1 && agent.system->0[0].text == system && agent.system->0[0].cache_control is None,
        told(input, "system"@) is None && sub_agent.system is None ==> agent.system is None,
        told(input, "system"@) is None && sub_agent.system == Some(system) ==> agent.system is Some
            && agent.system->0.len() == 1 && agent.system->0[0].text == system
            && agent.system->0[0].cache_control is None,
        !parent.allows(name) ==> !agent.executor.allows(name),
        sub_agent.tools_allow is Some && !sub_agent.tools_allow->0.contains(name)
            ==> !agent.executor.allows(name),
        parent.allows(name) && (sub_agent.tools_allow is Some
            ==> sub_agent.tools_allow->0.contains(name)) ==> agent.executor.allows(name),
        agent.executor.tools() == parent.tools(),
        agent.model == sub_agent.model,
        agent.max_turns == sub_agent.max_turns,
        agent.max_tokens == sub_agent.max_tokens,
        agent.temperature == sub_agent.temperature,
        agent.thinking == sub_agent.thinking,
        sub_agent.filter_tool_definitions ==> match agent.tool_definition_filter {
            Some(names) => names.contains(name) <==> agent.executor.allows(name) && exists|k: int|
                0 <= k < parent.tools().len() && (#[trigger] parent.tools()[k]).name == name,
            None => false,
        },
        !sub_agent.filter_tool_definitions ==> agent.tool_definition_filter is None,
{
    admitted_names_are_those(
        parent.tools(),
        |n: Seq<char>| parent.allows(n) && sub_agent.admits(n),
        name,
    );
}

/// The admitted names are exactly those of tools that the test admits.
pub proof fn admitted_names_are_those(
    tools: Seq<ToolSpecView>,
    admits: spec_fn(Seq<char>) -> bool,
    name: Seq<char>,
)
    ensures
        admitted_names(tools, admits).contains(name) <==> admits(name) && exists|k: int|
            0 <= k < tools.len() && (#[trigger] tools[k]).name == name,
    decreases tools.len(),
{
    let names = admitted_names(tools, admits);
    if tools.len() > 0 {
        let rest = tools.drop_last();
        let before = admitted_names(rest, admits);
        let last = tools[tools.len() - 1];
        admitted_names_are_those(rest, admits, name);
        if names.contains(name) {
            let i = choose|i: int| 0 <= i < names.len() && names[i] == name;
            if i < before.len() {
                assert(before[i] == name);
                let k = choose|k: int| 0 <= k < rest.len() && (#[trigger] rest[k]).name == name;
                assert(tools[k].name == name);
            } else {
                assert(last.name == name);
            }
        }
        if admits(name) && exists|k: int|
            0 <= k < tools.len() && (#[trigger] tools[k]).name == name {
            let k = choose|k: int| 0 <= k < tools.len() && (#[trigger] tools[k]).name == name;
            if k < rest.len() {
                assert(rest[k].name == name);
                let i = choose|i: int| 0 <= i < before.len() && before[i] == name;
                assert(names[i] == name);
            } else {
                assert(names[names.len() - 1] == name);
            }
        }
    }
}

/// The names of the tools that a test admits, in order.
pub open spec fn admitted_names(tools: Seq<ToolSpecView>, admits: spec_fn(Seq<char>) -> bool) -> Seq<
    Seq<char>,
>
    decreases tools.len(),
{
    if tools.len() == 0 {
        Seq::empty()
    } else {
        let before = admitted_names(tools.drop_last(), admits);
        if admits(tools.last().name) {
            before.push(tools.last().name)
        } else {
            before
        }
    }
}

/// What a call of a sub-agent comes to before the nested agent runs.
pub enum SubAgentStart<P: ToolPolicy + ?Sized> {
    /// The call is answered at once.
    Answered(ToolOutput),
    /// The call's input is not as it should be.
    InvalidInput(String),
    /// A nested agent runs on a conversation.
    Run { agent: Agent<ScopedPolicy<P>>, history: Vec<Message> },
}

/// What the model is told where agents are nested too deep.
pub open spec fn depth_text(max_depth: usize) -> Seq<char> {
    "Max sub-agent depth ("@ + decimal(max_depth as nat)
        + ") reached. Cannot spawn further sub-agents."@
}

/// Whether agents may nest one level deeper.
pub open spec fn may_nest(depth: usize, max_depth: usize) -> bool {
    depth < max_depth
}

/// The conversation that a nested agent begins with.
pub open spec fn opening(prompt: Seq<char>) -> Seq<MessageView> {
    seq![MessageView { role: Role::User, content: seq![ContentView::plain(prompt)] }]
}

/// A nested agent begins with the prompt of its call, as a user's message, and
/// knows nothing else of its parent's conversation. Agents nest up to the limit
/// and no deeper, and the model is told the limit where one may not.
pub proof fn nested_agents_begin_with_the_prompt(
    prompt: Seq<char>,
    depth: usize,
    max_depth: usize,
)
    ensures
        opening(prompt).len() == 1,
        opening(prompt)[0].role == Role::User,
        opening(prompt)[0].content.len() == 1,
        opening(prompt)[0].content[0] == (ContentView::Text { text: prompt, cache_control: None }),
        may_nest(depth, max_depth) <==> depth + 1 <= max_depth,
        depth_text(max_depth) == "Max sub-agent depth ("@ + decimal(max_depth as nat)
            + ") reached. Cannot spawn further sub-agents."@,
{
}

/// What a call answers once its nested agent ran.
pub open spec fn nested_output(outcome: Result<AgentResultView, Seq<char>>) -> ToolOutputView {
    match outcome {
        Ok(result) => ToolOutputView { content: result.text, is_error: false },
        Err(error) => ToolOutputView { content: "Sub-agent error: "@ + error, is_error: true },
    }
}

/// The parent's model gets the text of the nested agent's last answer, and is
/// told of a failure as one.
pub proof fn nested_answers_reach_the_parent(outcome: Result<AgentResultView, Seq<char>>)
    ensures
        nested_output(outcome).is_error <==> outcome is Err,
        match outcome {
            Ok(result) => nested_output(outcome).content == result.text,
            Err(error) => nested_output(outcome).content == "Sub-agent error: "@ + error,
        },
{
}

impl SubAgent {
    /// A sub-agent named `agent`, with its defaults.
    pub fn new(model: &str) -> (r: SubAgent)
        ensures
            r@ == (SubAgentView {
                model: model@,
                system: None,
                max_turns: 30,
                max_tokens: 4096,
                temperature: None,
                name: "agent"@,
                description: default_description(),
                tools_allow: None,
                filter_tool_definitions: false,
                thinking: None,
            }),
    {
        SubAgent {
            model: model.to_owned(),
            system: None,
            max_turns: 30,
            max_tokens: 4096,
            temperature: None,
            name: "agent".to_owned(),
            description: "Spawn a sub-agent to handle a complex task autonomously. The sub-agent gets its own conversation context and inherits the parent agent's full tool set. Use this for tasks that require multi-step reasoning or focused exploration.".to_owned(),
            tools_allow: None,
            filter_tool_definitions: false,
            thinking: None,
        }
    }

    /// Another tool name.
    pub fn name(self, name: &str) -> (r: SubAgent)
        ensures
            r@ == (SubAgentView { name: name@, ..self@ }),
    {
        SubAgent { name: name.to_owned(), ..self }
    }

    /// Another description.
    pub fn description(self, description: &str) -> (r: SubAgent)
        ensures
            r@ == (SubAgentView { description: description@, ..self@ }),
    {
        SubAgent { description: description.to_owned(), ..self }
    }

    /// The system prompt where a call gives none.
    pub fn system(self, system: &str) -> (r: SubAgent)
        ensures
            r@ == (SubAgentView { system: Some(system@), ..self@ }),
    {
        SubAgent { system: Some(system.to_owned()), ..self }
    }

    /// Limits the turns of the nested agent.
    pub fn max_turns(self, max_turns: usize) -> (r: SubAgent)
        ensures
            r@ == (SubAgentView { max_turns, ..self@ }),
    {
        SubAgent { max_turns, ..self }
    }

    /// Limits the tokens of an answer.
    pub fn max_tokens(self, max_tokens: u32) -> (r: SubAgent)
        ensures
            r@ == (SubAgentView { max_tokens, ..self@ }),
    {
        SubAgent { max_tokens, ..self }
    }

    /// Sets the sampling temperature, as the number that goes on the wire.
    pub fn temperature(self, temperature: JsonNumber) -> (r: SubAgent)
        ensures
            r@ == (SubAgentView { temperature: Some(temperature), ..self@ }),
    {
        SubAgent { temperature: Some(temperature), ..self }
    }

    /// Keeps the nested agent to the named tools. An empty list allows none.
    pub fn tools_allow(self, tools: Vec<String>) -> (r: SubAgent)
        ensures
            r@ == (SubAgentView { tools_allow: Some(views(tools@)), ..self@ }),
    {
        SubAgent { tools_allow: Some(tools), ..self }
    }

    /// Also keeps the tools that may not be used out of the request.
    pub fn filter_tool_definitions(self, on: bool) -> (r: SubAgent)
        ensures
            r@ == (SubAgentView { filter_tool_definitions: on, ..self@ }),
    {
        SubAgent { filter_tool_definitions: on, ..self }
    }

    /// Sets the thinking configuration of each call.
    pub fn thinking(self, thinking: ThinkingConfig) -> (r: SubAgent)
        ensures
            r@ == (SubAgentView { thinking: Some(thinking), ..self@ }),
    {
        SubAgent { thinking: Some(thinking), ..self }
    }

    /// The sub-agent as a tool.
    pub fn tool_spec(&self) -> (r: ToolSpec)
        ensures
            r@ == (ToolSpecView {
                name: self@.name,
                description: self@.description,
                input_schema: input_schema_view(),
                class: ToolClass::Mutating,
                recursive: true,
            }),
    {
        let mut properties: Vec<(String, Json)> = Vec::new();
        set_field(
            &mut properties,
            "prompt",
            property("The task for the sub-agent to perform"),
        );
        set_field(
            &mut properties,
            "system",
            property("System prompt for the sub-agent (optional, overrides the default)"),
        );
        let required: Vec<Json> = vec![Json::string("prompt")];
        assert(views(required@) =~= seq![JsonView::Text("prompt"@)]);
        let mut fields: Vec<(String, Json)> = Vec::new();
        set_field(&mut fields, "type", Json::string("object"));
        set_field(&mut fields, "properties", Json::Object(properties));
        set_field(&mut fields, "required", Json::array(required));
        ToolSpec {
            name: self.name.clone(),
            description: self.description.clone(),
            input_schema: Json::Object(fields),
            class: ToolClass::Mutating,
            recursive: true,
        }
    }

    /// Takes a call: refuses it where agents are nested too deep or the
    /// prompt is missing, and else sets up the nested agent. Its tools are
    /// those that its parent may use and, where there is an allow list, that
    /// are on it.
    pub fn execute<P: ToolPolicy + ?Sized>(
        &self,
        input: &Json,
        depth: usize,
        max_depth: usize,
        executor: &ToolExecutor<ScopedPolicy<P>>,
    ) -> (r: SubAgentStart<P>)
        ensures
            match r {
                SubAgentStart::Answered(output) => !may_nest(depth, max_depth) && output@
                    == (ToolOutputView { content: depth_text(max_depth), is_error: true }),
                SubAgentStart::InvalidInput(message) => may_nest(depth, max_depth) && text_field(
                    input@,
                    "prompt"@,
                ) is None && message@ == "prompt is required"@,
                SubAgentStart::Run { agent, history } => may_nest(depth, max_depth) && text_field(
                    input@,
                    "prompt"@,
                ) is Some && views(history@) == opening(text_field(input@, "prompt"@)->0)
                    && self@.nests(input@, depth, max_depth, *executor, agent@) && agent@.system
                    == match text_field(input@, "system"@) {
                    Some(system) => Some(
                        seq![SystemBlockView { text: system, cache_control: None }],
                    ),
                    None => match self@.system {
                        Some(system) => Some(
                            seq![SystemBlockView { text: system, cache_control: None }],
                        ),
                        None => None,
                    },
                } && (forall|name: Seq<char>|
                    #[trigger] agent@.executor.allows(name) ==> executor.allows(name)),
            },
    {
        if depth >= max_depth {
            let mut text: String = "Max sub-agent depth (".to_owned();
            text.append(decimal_text(max_depth as u128).as_str());
            text.append(") reached. Cannot spawn further sub-agents.");
            return SubAgentStart::Answered(ToolOutput::error(text.as_str()));
        }
        let prompt: &str = match get_text(input, "prompt") {
            Some(prompt) => prompt,
            None => return SubAgentStart::InvalidInput("prompt is required".to_owned()),
        };
        let parent: Arc<ScopedPolicy<P>> = executor.policy_for_fork();
        let child_policy: Arc<ScopedPolicy<P>> = match &self.tools_allow {
            Some(names) => Arc::new(parent.narrowed(AllowList::new(clone_names(names)))),
            None => parent.clone(),
        };
        assert forall|name: Seq<char>| #[trigger]
            child_policy.allows(name) == (executor.allows(name) && self@.admits(name)) by {
            assert(parent.allows(name) == executor.allows(name));
        }
        let child_executor: ToolExecutor<ScopedPolicy<P>> = executor.fork_for_subagent_with(
            child_policy.clone(),
        );
        let mut builder: AgentBuilder<ScopedPolicy<P>> = AgentBuilder::with_policy(
            child_policy.clone(),
        ).model(self.model.as_str()).executor(Arc::new(child_executor)).max_turns(
            self.max_turns,
        ).max_tokens(self.max_tokens).max_depth(max_depth).depth(depth + 1);
        match get_text(input, "system") {
            Some(system) => {
                builder = builder.system(system);
            },
            None => {
                if let Some(system) = &self.system {
                    builder = builder.system(system.as_str());
                }
            },
        }
        if let Some(number) = &self.temperature {
            builder = builder.temperature(number.copy());
        }
        if let Some(thinking) = &self.thinking {
            builder = builder.thinking(thinking.clone());
        }
        if self.filter_tool_definitions {
            let visible: Vec<String> = visible_names(executor, &child_policy);
            proof {
                same_admitted_names(
                    executor.tools(),
                    |name: Seq<char>| child_policy.allows(name),
                    |name: Seq<char>| executor.allows(name) && self@.admits(name),
                );
            }
            builder = builder.tool_definition_filter(visible);
        }
        match builder.build() {
            Ok(agent) => {
                let history: Vec<Message> = vec![Message::user_text(prompt)];
                assert(views(history@) =~= seq![
                    MessageView {
                        role: Role::User,
                        content: seq![ContentView::plain(prompt@)],
                    },
                ]);
                SubAgentStart::Run { agent, history }
            },
            Err(error) => {
                let mut text: String = "Sub-agent configuration error: ".to_owned();
                text.append(error.message().as_str());
                SubAgentStart::Answered(ToolOutput::error(text.as_str()))
            },
        }
    }

    /// What the call answers once the nested agent ran: its text, or the text
    /// of its error.
    pub fn finish(outcome: Result<AgentResult, String>) -> (r: ToolOutput)
        ensures
            r@ == nested_output(
                match outcome {
                    Ok(result) => Ok(result@),
                    Err(error) => Err(error@),
                },
            ),
            r@.is_error == outcome is Err,
    {
        match outcome {
            Ok(result) => ToolOutput::text(result.text.as_str()),
            Err(error) => {
                let mut text: String = "Sub-agent error: ".to_owned();
                text.append(error.as_str());
                ToolOutput::error(text.as_str())
            },
        }
    }
}

fn clone_names(names: &Vec<String>) -> (r: Vec<String>)
    ensures
        views(r@) == views(names@),
{
    let mut out: Vec<String> = Vec::new();
    let mut i: usize = 0;
    while i < names.len()
        invariant
            i <= names.len(),
            out.len() == i,
            forall|k: int| 0 <= k < i ==> (#[trigger] out@[k])@ == names@[k]@,
        decreases names.len() - i,
    {
        out.push(names[i].clone());
        i = i + 1;
    }
    assert(views(out@) =~= views(names@));
    out
}

fn visible_names<P: ToolPolicy + ?Sized>(
    executor: &ToolExecutor<ScopedPolicy<P>>,
    policy: &Arc<ScopedPolicy<P>>,
) -> (r: Vec<String>)
    ensures
        views(r@) == admitted_names(executor.tools(), |name: Seq<char>| policy.allows(name)),
{
    let tools: &Vec<ToolSpec> = executor.registry().iter();
    let ghost all = views(tools@);
    let ghost admits = |name: Seq<char>| policy.allows(name);
    let mut out: Vec<String> = Vec::new();
    let mut i: usize = 0;
    assert(views(out@) =~= admitted_names(all.take(0), admits));
    while i < tools.len()
        invariant
            i <= tools.len(),
            all == views(tools@),
            admits == |name: Seq<char>| policy.allows(name),
            views(out@) == admitted_names(all.take(i as int), admits),
        decreases tools.len() - i,
    {
        proof {
            assert(all.take(i + 1).drop_last() =~= all.take(i as int));
            assert(all.take(i + 1).last() == tools@[i as int]@);
        }
        if policy.is_allowed(tools[i].name.as_str()) {
            let name: String = tools[i].name.clone();
            proof {
                views_push(out@, name);
            }
            out.push(name);
        }
        i = i + 1;
    }
    assert(all.take(i as int) =~= all);
    out
}

proof fn same_admitted_names(
    tools: Seq<ToolSpecView>,
    a: spec_fn(Seq<char>) -> bool,
    b: spec_fn(Seq<char>) -> bool,
)
    requires
        forall|name: Seq<char>| #[trigger] a(name) == b(name),
    ensures
        admitted_names(tools, a) == admitted_names(tools, b),
    decreases tools.len(),
{
    if tools.len() > 0 {
        same_admitted_names(tools.drop_last(), a, b);
        assert(a(tools.last().name) == b(tools.last().name));
    }
}

/// The model is told that a call needs a prompt and may give a system prompt,
/// both texts.
pub proof fn the_schema_asks_for_a_prompt()
    ensures
        has(input_schema_view(), "type"@, JsonView::Text("object"@)),
        has(
            input_schema_view(),
            "required"@,
            JsonView::Array(seq![JsonView::Text("prompt"@)]),
        ),
        exists|properties: JsonView, prompt: JsonView, system: JsonView|
            {
                &&& #[trigger] has(input_schema_view(), "properties"@, properties)
                &&& #[trigger] has(properties, "prompt"@, prompt)
                &&& #[trigger] has(properties, "system"@, system)
                &&& has(prompt, "type"@, JsonView::Text("string"@))
                &&& has(system, "type"@, JsonView::Text("string"@))
            },
{
    reveal_strlit("type");
    reveal_strlit("required");
    reveal_strlit("properties");
    reveal_strlit("prompt");
    reveal_strlit("system");
    reveal_strlit("description");
    assert("type"@.len() == 4);
    assert("required"@.len() == 8);
    assert("properties"@.len() == 10);
    assert("prompt"@.len() == 6 && "prompt"@[0] == 'p');
    assert("system"@.len() == 6 && "system"@[0] == 's');
    assert("description"@.len() == 11);
    let prompt = string_property("The task for the sub-agent to perform"@);
    let system = string_property(
        "System prompt for the sub-agent (optional, overrides the default)"@,
    );
    let properties = JsonView::Object(map!["prompt"@ => prompt, "system"@ => system]);
    assert(has(input_schema_view(), "properties"@, properties));
    assert(has(properties, "prompt"@, prompt));
    assert(has(properties, "system"@, system));
}

} // verus!
