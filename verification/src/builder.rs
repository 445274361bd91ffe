//! Agents and how they are put together.
use crate::agent::{RunSettings, RunSettingsView};
use crate::concurrency::{
    configured, limits_fit, limits_in_range, max_permits, ConcurrencyConfig, ToolConcurrency,
};
use crate::executor::ToolExecutor;
use crate::json::JsonNumber;
use crate::message::CacheControl;
use crate::policy::{AllowAll, ToolPolicy};
use crate::provider::{
    optional_blocks, SystemBlock, SystemBlockView, ThinkingConfig, ToolDefinition,
    ToolDefinitionView,
};
use crate::registry::{distinct_tools, later_registration_wins, registered, ToolRegistry};
use crate::text::{
    decimal, decimal_text, same_text, text_at_most, text_le, text_le_total,
    text_le_transitive, views,
};
use crate::tool::{ToolSpec, ToolSpecView};
use std::sync::Arc;
use vstd::prelude::*;
use vstd::string::*;

verus! {

/// Why an agent cannot be built.
#[derive(Debug, PartialEq, Eq)]
pub enum BuildError {
    /// Two tools have the same name.
    DuplicateToolName { name: String, count: usize },
}

impl BuildError {
    /// The error as text.
    pub fn message(&self) -> (r: String)
        ensures
            match *self {
                BuildError::DuplicateToolName { name, count } => r@ == "duplicate tool name '"@
                    + name@ + "' (registered "@ + decimal(count as nat)
                    + " times); each tool must have a unique name"@,
            },
    {
        match self {
            BuildError::DuplicateToolName { name, count } => {
                let mut text: String = "duplicate tool name '".to_owned();
                text.append(name.as_str());
                text.append("' (registered ");
                text.append(decimal_text(*count as u128).as_str());
                text.append(" times); each tool must have a unique name");
                text
            },
        }
    }
}

/// How often a name occurs among tools.
pub open spec fn occurrences(tools: Seq<ToolSpecView>, name: Seq<char>) -> nat
    decreases tools.len(),
{
    if tools.len() == 0 {
        0
    } else {
        occurrences(tools.drop_last(), name) + if tools.last().name == name {
            1nat
        } else {
            0nat
        }
    }
}

/// The first tool, from a position on, whose name occurs more than once.
pub open spec fn first_duplicate(tools: Seq<ToolSpecView>, from: int) -> Option<int>
    decreases tools.len() - from,
{
    if from >= tools.len() {
        None
    } else if occurrences(tools, tools[from].name) > 1 {
        Some(from)
    } else {
        first_duplicate(tools, from + 1)
    }
}

fn count_name(tools: &Vec<ToolSpec>, name: &str) -> (r: usize)
    ensures
        r == occurrences(views(tools@), name@),
{
    let ghost all = views(tools@);
    let mut count: usize = 0;
    let mut i: usize = 0;
    assert(all.take(0) =~= Seq::<ToolSpecView>::empty());
    while i < tools.len()
        invariant
            i <= tools.len(),
            all == views(tools@),
            count <= i,
            count == occurrences(all.take(i as int), name@),
        decreases tools.len() - i,
    {
        proof {
            assert(all.take(i + 1).drop_last() =~= all.take(i as int));
            assert(all.take(i + 1).last() == tools@[i as int]@);
        }
        if same_text(tools[i].name.as_str(), name) {
            count = count + 1;
        }
        i = i + 1;
    }
    assert(all.take(i as int) =~= all);
    count
}

/// Refuses tools of which two have the same name. The error names the first
/// such name and how often it occurs.
pub fn validate_tool_names(tools: &Vec<ToolSpec>) -> (r: Result<(), BuildError>)
    ensures
        match first_duplicate(views(tools@), 0) {
            Some(i) => match r {
                Err(BuildError::DuplicateToolName { name, count }) => name@ == views(
                    tools@,
                )[i].name && count == occurrences(views(tools@), name@),
                Ok(_) => false,
            },
            None => r is Ok,
        },
{
    let ghost all = views(tools@);
    let mut i: usize = 0;
    while i < tools.len()
        invariant
            i <= tools.len(),
            all == views(tools@),
            first_duplicate(all, 0) == first_duplicate(all, i as int),
        decreases tools.len() - i,
    {
        let count: usize = count_name(tools, tools[i].name.as_str());
        assert(all[i as int].name == tools@[i as int].name@);
        if count > 1 {
            return Err(
                BuildError::DuplicateToolName { name: tools[i].name.clone(), count },
            );
        }
        i = i + 1;
    }
    Ok(())
}

proof fn occurs_at_least(tools: Seq<ToolSpecView>, i: int)
    requires
        0 <= i < tools.len(),
    ensures
        occurrences(tools, tools[i].name) >= 1,
    decreases tools.len(),
{
    if i < tools.len() - 1 {
        occurs_at_least(tools.drop_last(), i);
        assert(tools.drop_last()[i] == tools[i]);
    }
}

proof fn occurs_twice(tools: Seq<ToolSpecView>, i: int, j: int)
    requires
        0 <= i < j < tools.len(),
        tools[i].name == tools[j].name,
    ensures
        occurrences(tools, tools[i].name) >= 2,
    decreases tools.len(),
{
    let rest = tools.drop_last();
    if j < tools.len() - 1 {
        assert(rest[i] == tools[i] && rest[j] == tools[j]);
        occurs_twice(rest, i, j);
    } else {
        assert(rest[i] == tools[i]);
        occurs_at_least(rest, i);
    }
}

proof fn occurs_once(tools: Seq<ToolSpecView>, name: Seq<char>)
    requires
        distinct_tools(tools),
    ensures
        occurrences(tools, name) <= 1,
        occurrences(tools, name) == 1 ==> exists|i: int|
            0 <= i < tools.len() && (#[trigger] tools[i]).name == name,
    decreases tools.len(),
{
    if tools.len() > 0 {
        let rest = tools.drop_last();
        assert forall|i: int, j: int| 0 <= i < j < rest.len() implies (#[trigger] rest[i]).name
            != (#[trigger] rest[j]).name by {
            assert(rest[i] == tools[i] && rest[j] == tools[j]);
        }
        occurs_once(rest, name);
        if tools.last().name == name {
            assert(tools[tools.len() - 1].name == name);
            if occurrences(rest, name) == 1 {
                let i = choose|i: int| 0 <= i < rest.len() && (#[trigger] rest[i]).name == name;
                assert(tools[i].name == tools[tools.len() - 1].name);
            }
        } else if occurrences(rest, name) == 1 {
            let i = choose|i: int| 0 <= i < rest.len() && (#[trigger] rest[i]).name == name;
            assert(tools[i].name == name);
        }
    }
}

proof fn no_duplicate_from(tools: Seq<ToolSpecView>, from: int)
    requires
        0 <= from,
    ensures
        match first_duplicate(tools, from) {
            Some(i) => from <= i < tools.len() && occurrences(tools, tools[i].name) > 1,
            None => forall|i: int|
                from <= i < tools.len() ==> occurrences(tools, (#[trigger] tools[i]).name) <= 1,
        },
    decreases tools.len() - from,
{
    if from < tools.len() && occurrences(tools, tools[from].name) <= 1 {
        no_duplicate_from(tools, from + 1);
    }
}

/// An agent is refused for its tool names exactly when two tools have the
/// same name.
pub proof fn refused_exactly_for_duplicates(tools: Seq<ToolSpecView>)
    ensures
        first_duplicate(tools, 0) is None <==> distinct_tools(tools),
{
    no_duplicate_from(tools, 0);
    if first_duplicate(tools, 0) is None {
        assert forall|i: int, j: int| 0 <= i < j < tools.len() implies (#[trigger] tools[i]).name
            != (#[trigger] tools[j]).name by {
            if tools[i].name == tools[j].name {
                occurs_twice(tools, i, j);
            }
        }
    } else if distinct_tools(tools) {
        occurs_once(tools, tools[first_duplicate(tools, 0)->0].name);
    }
}

/// A tool as the model is told of it.
pub open spec fn definition_of(tool: ToolSpecView) -> ToolDefinitionView {
    ToolDefinitionView {
        name: tool.name,
        description: tool.description,
        input_schema: tool.input_schema,
        cache_control: None,
    }
}

/// Whether the model is told of a tool.
pub open spec fn is_visible(filter: Option<Seq<Seq<char>>>, name: Seq<char>) -> bool {
    match filter {
        Some(names) => names.contains(name),
        None => true,
    }
}

/// Definitions in the order of their names, with one put in its place.
pub open spec fn placed_definition(
    sorted: Seq<ToolDefinitionView>,
    definition: ToolDefinitionView,
) -> Seq<ToolDefinitionView>
    decreases sorted.len(),
{
    if sorted.len() == 0 {
        seq![definition]
    } else if text_le(sorted.last().name, definition.name) {
        sorted.push(definition)
    } else {
        placed_definition(sorted.drop_last(), definition).push(sorted.last())
    }
}

/// The visible tools as definitions, in the order of their names.
pub open spec fn sorted_definitions(
    tools: Seq<ToolSpecView>,
    filter: Option<Seq<Seq<char>>>,
) -> Seq<ToolDefinitionView>
    decreases tools.len(),
{
    if tools.len() == 0 {
        Seq::empty()
    } else {
        let before = sorted_definitions(tools.drop_last(), filter);
        if is_visible(filter, tools.last().name) {
            placed_definition(before, definition_of(tools.last()))
        } else {
            before
        }
    }
}

/// The definitions with a cache breakpoint on the last.
pub open spec fn with_breakpoint(
    definitions: Seq<ToolDefinitionView>,
    cache_control: Option<CacheControl>,
) -> Seq<ToolDefinitionView> {
    if definitions.len() == 0 || cache_control is None {
        definitions
    } else {
        definitions.update(
            definitions.len() - 1,
            ToolDefinitionView { cache_control, ..definitions.last() },
        )
    }
}

proof fn placed_definition_at(
    sorted: Seq<ToolDefinitionView>,
    definition: ToolDefinitionView,
    at: int,
)
    requires
        0 <= at <= sorted.len(),
        forall|k: int|
            at <= k < sorted.len() ==> !text_le((#[trigger] sorted[k]).name, definition.name),
        at > 0 ==> text_le(sorted[at - 1].name, definition.name),
    ensures
        placed_definition(sorted, definition) == sorted.insert(at, definition),
    decreases sorted.len(),
{
    if sorted.len() == 0 {
        assert(sorted.insert(at, definition) =~= seq![definition]);
    } else if at == sorted.len() {
        assert(sorted.insert(at, definition) =~= sorted.push(definition));
    } else {
        let rest = sorted.drop_last();
        assert forall|k: int| at <= k < rest.len() implies !text_le(
            (#[trigger] rest[k]).name,
            definition.name,
        ) by {
            assert(rest[k] == sorted[k]);
        }
        placed_definition_at(rest, definition, at);
        assert(!text_le(sorted[sorted.len() - 1].name, definition.name));
        assert(sorted.insert(at, definition) =~= rest.insert(at, definition).push(sorted.last()));
    }
}

/// Whether definitions are in the order of their names, each name once.
pub open spec fn in_name_order(definitions: Seq<ToolDefinitionView>) -> bool {
    forall|i: int, j: int|
        0 <= i < j < definitions.len() ==> text_le(
            (#[trigger] definitions[i]).name,
            (#[trigger] definitions[j]).name,
        ) && definitions[i].name != definitions[j].name
}

proof fn placed_keeps_order(sorted: Seq<ToolDefinitionView>, definition: ToolDefinitionView)
    requires
        in_name_order(sorted),
        forall|k: int| 0 <= k < sorted.len() ==> (#[trigger] sorted[k]).name != definition.name,
    ensures
        in_name_order(placed_definition(sorted, definition)),
        placed_definition(sorted, definition).len() == sorted.len() + 1,
        forall|x: ToolDefinitionView|
            #[trigger] placed_definition(sorted, definition).contains(x) <==> sorted.contains(x)
                || x == definition,
    decreases sorted.len(),
{
    let out = placed_definition(sorted, definition);
    if sorted.len() == 0 {
        assert(out[0] == definition);
    } else if text_le(sorted.last().name, definition.name) {
        assert forall|i: int, j: int| 0 <= i < j < out.len() implies text_le(
            (#[trigger] out[i]).name,
            (#[trigger] out[j]).name,
        ) && out[i].name != out[j].name by {
            assert(out[i] == sorted[i]);
            if j == sorted.len() {
                if i < sorted.len() - 1 {
                    assert(text_le(sorted[i].name, sorted[sorted.len() - 1].name));
                    text_le_transitive(sorted[i].name, sorted.last().name, definition.name);
                }
            } else {
                assert(out[j] == sorted[j]);
            }
        }
        assert forall|x: ToolDefinitionView| #[trigger] out.contains(x) <==> sorted.contains(x)
            || x == definition by {
            if sorted.contains(x) {
                let i = choose|i: int| 0 <= i < sorted.len() && sorted[i] == x;
                assert(out[i] == x);
            }
            if x == definition {
                assert(out[sorted.len() as int] == x);
            }
        }
    } else {
        let rest = sorted.drop_last();
        let last = sorted.last();
        assert forall|k: int| 0 <= k < rest.len() implies (#[trigger] rest[k]).name
            != definition.name by {
            assert(rest[k] == sorted[k]);
        }
        assert forall|i: int, j: int| 0 <= i < j < rest.len() implies text_le(
            (#[trigger] rest[i]).name,
            (#[trigger] rest[j]).name,
        ) && rest[i].name != rest[j].name by {
            assert(rest[i] == sorted[i] && rest[j] == sorted[j]);
        }
        placed_keeps_order(rest, definition);
        let inner = placed_definition(rest, definition);
        text_le_total(last.name, definition.name);
        assert(sorted[sorted.len() - 1].name != definition.name);
        assert forall|i: int| 0 <= i < inner.len() implies text_le(
            (#[trigger] inner[i]).name,
            last.name,
        ) && inner[i].name != last.name by {
            assert(inner.contains(inner[i]));
            if inner[i] != definition {
                assert(rest.contains(inner[i]));
                let k = choose|k: int| 0 <= k < rest.len() && rest[k] == inner[i];
                assert(sorted[k] == inner[i]);
                assert(text_le(sorted[k].name, sorted[sorted.len() - 1].name));
            }
        }
        assert forall|i: int, j: int| 0 <= i < j < out.len() implies text_le(
            (#[trigger] out[i]).name,
            (#[trigger] out[j]).name,
        ) && out[i].name != out[j].name by {
            assert(out[i] == inner[i]);
            if j < inner.len() {
                assert(out[j] == inner[j]);
            }
        }
        assert forall|x: ToolDefinitionView| #[trigger] out.contains(x) <==> sorted.contains(x)
            || x == definition by {
            if out.contains(x) {
                let i = choose|i: int| 0 <= i < out.len() && out[i] == x;
                if i < inner.len() {
                    assert(inner.contains(x));
                    if x != definition {
                        let k = choose|k: int| 0 <= k < rest.len() && rest[k] == x;
                        assert(sorted[k] == x);
                    }
                } else {
                    assert(sorted[sorted.len() - 1] == x);
                }
            }
            if sorted.contains(x) || x == definition {
                if x == definition || rest.contains(x) {
                    assert(inner.contains(x));
                    let i = choose|i: int| 0 <= i < inner.len() && inner[i] == x;
                    assert(out[i] == x);
                } else {
                    let k = choose|k: int| 0 <= k < sorted.len() && sorted[k] == x;
                    if k < rest.len() {
                        assert(rest[k] == x);
                        assert(rest.contains(x));
                    }
                    assert(out[inner.len() as int] == x);
                }
            }
        }
    }
}

/// Whether definitions are those of exactly the visible tools, each once and
/// in the order of their names.
pub open spec fn tells_of(
    definitions: Seq<ToolDefinitionView>,
    tools: Seq<ToolSpecView>,
    filter: Option<Seq<Seq<char>>>,
) -> bool {
    &&& in_name_order(definitions)
    &&& forall|x: ToolDefinitionView|
        #[trigger] definitions.contains(x) <==> exists|k: int|
            0 <= k < tools.len() && is_visible(filter, tools[k].name) && definition_of(
                #[trigger] tools[k],
            ) == x
}

/// The model is told of exactly the visible tools, each once and in the order
/// of their names, whatever was registered and in whatever order.
pub proof fn definitions_are_sorted(given: Seq<ToolSpecView>, filter: Option<Seq<Seq<char>>>)
    ensures
        tells_of(sorted_definitions(registered(given), filter), registered(given), filter),
{
    later_registration_wins(given, Seq::empty());
    distinct_tools_are_sorted(registered(given), filter);
}

proof fn breakpoint_keeps_order(
    definitions: Seq<ToolDefinitionView>,
    cache_tools: Option<CacheControl>,
)
    requires
        in_name_order(definitions),
    ensures
        in_name_order(with_breakpoint(definitions, cache_tools)),
{
    let out = with_breakpoint(definitions, cache_tools);
    assert forall|i: int, j: int| 0 <= i < j < out.len() implies text_le(
        (#[trigger] out[i]).name,
        (#[trigger] out[j]).name,
    ) && out[i].name != out[j].name by {
        assert(out[i].name == definitions[i].name);
        assert(out[j].name == definitions[j].name);
    }
}

proof fn distinct_tools_are_sorted(tools: Seq<ToolSpecView>, filter: Option<Seq<Seq<char>>>)
    requires
        distinct_tools(tools),
    ensures
        tells_of(sorted_definitions(tools, filter), tools, filter),
    decreases tools.len(),
{
    let out = sorted_definitions(tools, filter);
    if tools.len() > 0 {
        let rest = tools.drop_last();
        assert forall|i: int, j: int| 0 <= i < j < rest.len() implies (#[trigger] rest[i]).name
            != (#[trigger] rest[j]).name by {
            assert(rest[i] == tools[i] && rest[j] == tools[j]);
        }
        distinct_tools_are_sorted(rest, filter);
        let before = sorted_definitions(rest, filter);
        let definition = definition_of(tools.last());
        if is_visible(filter, tools.last().name) {
            assert forall|i: int| 0 <= i < before.len() implies (#[trigger] before[i]).name
                != definition.name by {
                assert(before.contains(before[i]));
                let k = choose|k: int|
                    0 <= k < rest.len() && is_visible(filter, rest[k].name) && definition_of(
                        #[trigger] rest[k],
                    ) == before[i];
                assert(tools[k] == rest[k]);
                assert(tools[tools.len() - 1].name != tools[k].name);
            }
            placed_keeps_order(before, definition);
        }
        assert forall|x: ToolDefinitionView| #[trigger] out.contains(x) <==> exists|k: int|
            0 <= k < tools.len() && is_visible(filter, tools[k].name) && definition_of(
                #[trigger] tools[k],
            ) == x by {
            if out.contains(x) {
                if before.contains(x) {
                    let k = choose|k: int|
                        0 <= k < rest.len() && is_visible(filter, rest[k].name) && definition_of(
                            #[trigger] rest[k],
                        ) == x;
                    assert(definition_of(tools[k]) == x);
                } else {
                    assert(definition_of(tools[tools.len() - 1]) == x);
                }
            }
            if exists|k: int|
                0 <= k < tools.len() && is_visible(filter, tools[k].name) && definition_of(
                    #[trigger] tools[k],
                ) == x {
                let k = choose|k: int|
                    0 <= k < tools.len() && is_visible(filter, tools[k].name) && definition_of(
                        #[trigger] tools[k],
                    ) == x;
                if k < rest.len() {
                    assert(definition_of(rest[k]) == x);
                    assert(before.contains(x));
                }
            }
        }
    }
}

fn contains_name(names: &Vec<String>, name: &str) -> (r: bool)
    ensures
        r == views(names@).contains(name@),
{
    let mut i: usize = 0;
    while i < names.len()
        invariant
            i <= names.len(),
            forall|k: int| 0 <= k < i ==> #[trigger] views(names@)[k] != name@,
        decreases names.len() - i,
    {
        if same_text(names[i].as_str(), name) {
            assert(views(names@)[i as int] == name@);
            return true;
        }
        i = i + 1;
    }
    false
}

/// The characters of an optional list of names.
pub open spec fn optional_names(names: Option<Vec<String>>) -> Option<Seq<Seq<char>>> {
    match names {
        Some(list) => Some(views(list@)),
        None => None,
    }
}

/// Makes the definitions that the model is told: the visible tools in the
/// order of their names, a cache breakpoint on the last.
pub fn tool_definitions(
    registry: &ToolRegistry,
    filter: &Option<Vec<String>>,
    cache_tools: Option<CacheControl>,
) -> (r: Vec<ToolDefinition>)
    ensures
        views(r@) == with_breakpoint(
            sorted_definitions(registry@, optional_names(*filter)),
            cache_tools,
        ),
        tells_of(
            sorted_definitions(registry@, optional_names(*filter)),
            registry@,
            optional_names(*filter),
        ),
        in_name_order(views(r@)),
{
    let tools: &Vec<ToolSpec> = registry.iter();
    proof {
        distinct_tools_are_sorted(registry@, optional_names(*filter));
        breakpoint_keeps_order(
            sorted_definitions(registry@, optional_names(*filter)),
            cache_tools,
        );
    }
    let ghost all = views(tools@);
    let ghost names = optional_names(*filter);
    let mut out: Vec<ToolDefinition> = Vec::new();
    let mut i: usize = 0;
    assert(views(out@) =~= sorted_definitions(all.take(0), names));
    while i < tools.len()
        invariant
            i <= tools.len(),
            all == views(tools@),
            names == optional_names(*filter),
            views(out@) == sorted_definitions(all.take(i as int), names),
        decreases tools.len() - i,
    {
        let tool: &ToolSpec = &tools[i];
        proof {
            assert(all.take(i + 1).drop_last() =~= all.take(i as int));
            assert(all.take(i + 1).last() == tool@);
        }
        let visible: bool = match filter {
            Some(list) => contains_name(list, tool.name.as_str()),
            None => true,
        };
        if visible {
            let definition: ToolDefinition = ToolDefinition {
                name: tool.name.clone(),
                description: tool.description.clone(),
                input_schema: tool.input_schema.clone(),
                cache_control: None,
            };
            let ghost before = views(out@);
            let mut at: usize = out.len();
            while 0 < at && !text_at_most(out[at - 1].name.as_str(), definition.name.as_str())
                invariant
                    at <= out.len(),
                    before == views(out@),
                    forall|k: int|
                        at <= k < before.len() ==> !text_le(
                            (#[trigger] before[k]).name,
                            definition@.name,
                        ),
                decreases at,
            {
                assert(before[at - 1].name == out@[at - 1].name@);
                at = at - 1;
            }
            proof {
                if at > 0 {
                    assert(before[at - 1].name == out@[at - 1].name@);
                }
                placed_definition_at(before, definition@, at as int);
            }
            out.insert(at, definition);
            assert(views(out@) =~= before.insert(at as int, definition@));
        }
        i = i + 1;
    }
    assert(all.take(i as int) =~= all);
    let ghost sorted = views(out@);
    if let Some(cache_control) = cache_tools {
        if out.len() > 0 {
            let last: usize = out.len() - 1;
            out[last].cache_control = Some(cache_control);
            assert(views(out@) =~= with_breakpoint(sorted, Some(cache_control)));
        }
    }
    out
}

/// An agent without its provider: what it says, which tools it has, and how
/// far it goes.
pub struct Agent<P: ToolPolicy + ?Sized> {
    model: String,
    system: Option<Vec<SystemBlock>>,
    executor: Arc<ToolExecutor<P>>,
    max_turns: usize,
    max_tokens: u32,
    temperature: Option<JsonNumber>,
    max_depth: usize,
    depth: usize,
    cache_tools: Option<CacheControl>,
    thinking: Option<ThinkingConfig>,
    tool_definition_filter: Option<Vec<String>>,
}

/// What an [`Agent`] stands for.
#[verifier::reject_recursive_types(P)]
pub struct AgentView<P: ToolPolicy + ?Sized> {
    pub model: Seq<char>,
    pub system: Option<Seq<SystemBlockView>>,
    pub executor: Arc<ToolExecutor<P>>,
    pub max_turns: usize,
    pub max_tokens: u32,
    pub temperature: Option<JsonNumber>,
    pub max_depth: usize,
    pub depth: usize,
    pub cache_tools: Option<CacheControl>,
    pub thinking: Option<ThinkingConfig>,
    pub tool_definition_filter: Option<Seq<Seq<char>>>,
}

impl<P: ToolPolicy + ?Sized> View for Agent<P> {
    type V = AgentView<P>;

    closed spec fn view(&self) -> AgentView<P> {
        AgentView {
            model: self.model@,
            system: optional_blocks(self.system),
            executor: self.executor,
            max_turns: self.max_turns,
            max_tokens: self.max_tokens,
            temperature: self.temperature,
            max_depth: self.max_depth,
            depth: self.depth,
            cache_tools: self.cache_tools,
            thinking: self.thinking,
            tool_definition_filter: optional_names(self.tool_definition_filter),
        }
    }
}

impl<P: ToolPolicy + ?Sized> Clone for Agent<P> {
    /// The same agent: its tools, policy and limits are shared.
    fn clone(&self) -> (r: Agent<P>)
        ensures
            r@ == self@,
    {
        Agent {
            model: self.model.clone(),
            system: clone_system(&self.system),
            executor: self.executor.clone(),
            max_turns: self.max_turns,
            max_tokens: self.max_tokens,
            temperature: self.temperature.clone(),
            max_depth: self.max_depth,
            depth: self.depth,
            cache_tools: self.cache_tools,
            thinking: self.thinking.clone(),
            tool_definition_filter: clone_names(&self.tool_definition_filter),
        }
    }
}

fn clone_names(names: &Option<Vec<String>>) -> (r: Option<Vec<String>>)
    ensures
        optional_names(r) == optional_names(*names),
{
    match names {
        Some(list) => {
            let mut out: Vec<String> = Vec::new();
            let mut i: usize = 0;
            while i < list.len()
                invariant
                    i <= list.len(),
                    out.len() == i,
                    forall|k: int| 0 <= k < i ==> (#[trigger] out@[k])@ == list@[k]@,
                decreases list.len() - i,
            {
                out.push(list[i].clone());
                i = i + 1;
            }
            assert(views(out@) =~= views(list@));
            Some(out)
        },
        None => None,
    }
}

impl<P: ToolPolicy + ?Sized> AgentView<P> {
    /// What the model is told of the tools.
    pub open spec fn definitions(self) -> Seq<ToolDefinitionView> {
        with_breakpoint(
            sorted_definitions(self.executor.tools(), self.tool_definition_filter),
            self.cache_tools,
        )
    }

    /// What stays the same during a run.
    pub open spec fn settings(self, streaming: bool) -> RunSettingsView {
        RunSettingsView {
            model: self.model,
            system: self.system,
            tools: self.definitions(),
            max_turns: self.max_turns,
            max_tokens: self.max_tokens,
            temperature: self.temperature,
            thinking: self.thinking,
            streaming,
        }
    }
}

impl Agent<AllowAll> {
    /// A builder with its defaults, where every tool is allowed.
    pub fn builder() -> (r: AgentBuilder<AllowAll>)
        ensures
            r@ == BuilderView::fresh(Arc::new(AllowAll)),
    {
        AgentBuilder::new()
    }
}

impl<P: ToolPolicy + ?Sized> Agent<P> {
    /// The agent's executor.
    pub fn executor(&self) -> (r: &Arc<ToolExecutor<P>>)
        ensures
            *r == self@.executor,
    {
        &self.executor
    }

    /// How deep agents may nest.
    pub fn max_depth(&self) -> (r: usize)
        ensures
            r == self@.max_depth,
    {
        self.max_depth
    }

    /// How deep this agent is nested.
    pub fn depth(&self) -> (r: usize)
        ensures
            r == self@.depth,
    {
        self.depth
    }

    /// What the model is told of the tools.
    pub fn tool_definitions(&self) -> (r: Vec<ToolDefinition>)
        ensures
            views(r@) == self@.definitions(),
            in_name_order(views(r@)),
    {
        tool_definitions(self.executor.registry(), &self.tool_definition_filter, self.cache_tools)
    }

    /// What stays the same during a run.
    pub fn run_settings(&self, streaming: bool) -> (r: RunSettings)
        ensures
            r@ == self@.settings(streaming),
    {
        RunSettings {
            model: self.model.clone(),
            system: clone_system(&self.system),
            tools: self.tool_definitions(),
            max_turns: self.max_turns,
            max_tokens: self.max_tokens,
            temperature: match &self.temperature {
                Some(number) => Some(number.copy()),
                None => None,
            },
            thinking: match &self.thinking {
                Some(thinking) => Some(thinking.clone()),
                None => None,
            },
            streaming,
        }
    }
}

fn clone_system(system: &Option<Vec<SystemBlock>>) -> (r: Option<Vec<SystemBlock>>)
    ensures
        optional_blocks(r) == optional_blocks(*system),
{
    match system {
        Some(blocks) => {
            let mut out: Vec<SystemBlock> = Vec::new();
            let mut i: usize = 0;
            while i < blocks.len()
                invariant
                    i <= blocks.len(),
                    out.len() == i,
                    forall|k: int| 0 <= k < i ==> (#[trigger] out@[k])@ == blocks@[k]@,
                decreases blocks.len() - i,
            {
                out.push(blocks[i].clone());
                i = i + 1;
            }
            assert(views(out@) =~= views(blocks@));
            Some(out)
        },
        None => None,
    }
}

/// An agent under construction.
pub struct AgentBuilder<P: ToolPolicy + ?Sized> {
    model: Option<String>,
    system: Option<Vec<SystemBlock>>,
    tools: Vec<ToolSpec>,
    policy: Arc<P>,
    executor_override: Option<Arc<ToolExecutor<P>>>,
    max_turns: usize,
    max_tokens: u32,
    temperature: Option<JsonNumber>,
    max_depth: usize,
    depth: usize,
    cache_tools: Option<CacheControl>,
    read_cap: usize,
    mut_cap: usize,
    tool_concurrencies: Vec<(String, ToolConcurrency)>,
    thinking: Option<ThinkingConfig>,
    tool_definition_filter: Option<Vec<String>>,
}

/// What an [`AgentBuilder`] stands for.
#[verifier::reject_recursive_types(P)]
pub struct BuilderView<P: ToolPolicy + ?Sized> {
    pub model: Option<Seq<char>>,
    pub system: Option<Seq<SystemBlockView>>,
    pub tools: Seq<ToolSpecView>,
    pub policy: Arc<P>,
    pub executor_override: Option<Arc<ToolExecutor<P>>>,
    pub max_turns: usize,
    pub max_tokens: u32,
    pub temperature: Option<JsonNumber>,
    pub max_depth: usize,
    pub depth: usize,
    pub cache_tools: Option<CacheControl>,
    pub read_cap: usize,
    pub mut_cap: usize,
    pub tool_concurrencies: Seq<(String, ToolConcurrency)>,
    pub thinking: Option<ThinkingConfig>,
    pub tool_definition_filter: Option<Seq<Seq<char>>>,
}

impl<P: ToolPolicy + ?Sized> View for AgentBuilder<P> {
    type V = BuilderView<P>;

    closed spec fn view(&self) -> BuilderView<P> {
        BuilderView {
            model: match self.model {
                Some(model) => Some(model@),
                None => None,
            },
            system: optional_blocks(self.system),
            tools: views(self.tools@),
            policy: self.policy,
            executor_override: self.executor_override,
            max_turns: self.max_turns,
            max_tokens: self.max_tokens,
            temperature: self.temperature,
            max_depth: self.max_depth,
            depth: self.depth,
            cache_tools: self.cache_tools,
            read_cap: self.read_cap,
            mut_cap: self.mut_cap,
            tool_concurrencies: self.tool_concurrencies@,
            thinking: self.thinking,
            tool_definition_filter: optional_names(self.tool_definition_filter),
        }
    }
}

impl<P: ToolPolicy + ?Sized> BuilderView<P> {
    /// A builder with its defaults.
    pub open spec fn fresh(policy: Arc<P>) -> BuilderView<P> {
        BuilderView {
            model: None,
            system: None,
            tools: Seq::empty(),
            policy,
            executor_override: None,
            max_turns: 50,
            max_tokens: 16384,
            temperature: None,
            max_depth: 3,
            depth: 0,
            cache_tools: None,
            read_cap: 20,
            mut_cap: 10,
            tool_concurrencies: Seq::empty(),
            thinking: None,
            tool_definition_filter: None,
        }
    }

    /// With more tools behind those that it has.
    pub open spec fn with_tools(self, more: Seq<ToolSpecView>) -> BuilderView<P> {
        BuilderView { tools: self.tools + more, ..self }
    }

    /// With more settings of tools behind those that it has.
    pub open spec fn with_settings(self, more: Seq<(String, ToolConcurrency)>) -> BuilderView<P> {
        BuilderView { tool_concurrencies: self.tool_concurrencies + more, ..self }
    }

    /// The first tool whose name occurs twice. With an executor of its own
    /// the agent's tools are not looked at.
    pub open spec fn refusal(self) -> Option<int> {
        if self.executor_override is Some {
            None
        } else {
            first_duplicate(self.tools, 0)
        }
    }

    /// Whether the model is named and every limit can be set up.
    pub open spec fn ready(self) -> bool {
        &&& self.model is Some
        &&& self.executor_override is None ==> 0 < self.read_cap <= max_permits() && 0
            < self.mut_cap <= max_permits() && limits_fit(self.tool_concurrencies)
    }

    /// Whether an agent is the one that the builder describes.
    pub open spec fn describes(self, agent: AgentView<P>) -> bool {
        &&& self.model == Some(agent.model)
        &&& agent.system == self.system
        &&& agent.max_turns == self.max_turns
        &&& agent.max_tokens == self.max_tokens
        &&& agent.temperature == self.temperature
        &&& agent.max_depth == self.max_depth
        &&& agent.depth == self.depth
        &&& agent.cache_tools == self.cache_tools
        &&& agent.thinking == self.thinking
        &&& agent.tool_definition_filter == self.tool_definition_filter
        &&& match self.executor_override {
            Some(executor) => agent.executor == executor,
            None => agent.executor.tools() == registered(self.tools)
                && agent.executor.shared_policy() == self.policy && (forall|name: Seq<char>|
                #[trigger] agent.executor.allows(name) == self.policy.allows(name)) && configured(
                agent.executor.limits(),
                self.read_cap,
                self.mut_cap,
                self.tool_concurrencies,
            ),
        }
    }
}

impl AgentBuilder<AllowAll> {
    /// A builder with its defaults, where every tool is allowed.
    pub fn new() -> (r: AgentBuilder<AllowAll>)
        ensures
            r@ == BuilderView::fresh(Arc::new(AllowAll)),
    {
        AgentBuilder::with_policy(Arc::new(AllowAll))
    }
}

impl<P: ToolPolicy + ?Sized> AgentBuilder<P> {
    /// A builder with its defaults under a policy.
    pub fn with_policy(policy: Arc<P>) -> (r: AgentBuilder<P>)
        ensures
            r@ == BuilderView::fresh(policy),
    {
        let r: AgentBuilder<P> = AgentBuilder {
            model: None,
            system: None,
            tools: Vec::new(),
            policy,
            executor_override: None,
            max_turns: 50,
            max_tokens: 16384,
            temperature: None,
            max_depth: 3,
            depth: 0,
            cache_tools: None,
            read_cap: 20,
            mut_cap: 10,
            tool_concurrencies: Vec::new(),
            thinking: None,
            tool_definition_filter: None,
        };
        assert(r@.tools =~= Seq::empty());
        assert(r@.tool_concurrencies =~= Seq::empty());
        r
    }

    /// Names the model.
    pub fn model(self, model: &str) -> (r: AgentBuilder<P>)
        ensures
            r@ == (BuilderView { model: Some(model@), ..self@ }),
    {
        AgentBuilder { model: Some(model.to_owned()), ..self }
    }

    /// Sets the system prompt to one plain block.
    pub fn system(self, system: &str) -> (r: AgentBuilder<P>)
        ensures
            r@ == (BuilderView {
                system: Some(seq![SystemBlockView { text: system@, cache_control: None }]),
                ..self@
            }),
    {
        let blocks: Vec<SystemBlock> = vec![SystemBlock::text(system)];
        assert(views(blocks@) =~= seq![SystemBlockView { text: system@, cache_control: None }]);
        AgentBuilder { system: Some(blocks), ..self }
    }

    /// Sets the blocks of the system prompt.
    pub fn system_blocks(self, blocks: Vec<SystemBlock>) -> (r: AgentBuilder<P>)
        ensures
            r@ == (BuilderView { system: Some(views(blocks@)), ..self@ }),
    {
        AgentBuilder { system: Some(blocks), ..self }
    }

    /// Puts a cache breakpoint behind the tools.
    pub fn cache_tools(self, cache_control: CacheControl) -> (r: AgentBuilder<P>)
        ensures
            r@ == (BuilderView { cache_tools: Some(cache_control), ..self@ }),
    {
        AgentBuilder { cache_tools: Some(cache_control), ..self }
    }

    /// Adds a tool.
    pub fn tool(self, tool: ToolSpec) -> (r: AgentBuilder<P>)
        ensures
            r@ == self@.with_tools(seq![tool@]),
    {
        let mut tools: Vec<ToolSpec> = self.tools;
        proof {
            crate::text::views_push(tools@, tool);
        }
        tools.push(tool);
        assert(views(tools@) =~= self@.tools + seq![tool@]);
        AgentBuilder { tools, ..self }
    }

    /// Adds several tools.
    pub fn tools(self, more: Vec<ToolSpec>) -> (r: AgentBuilder<P>)
        ensures
            r@ == self@.with_tools(views(more@)),
    {
        let ghost before = self@.tools;
        let mut tools: Vec<ToolSpec> = self.tools;
        let mut added: Vec<ToolSpec> = more;
        let ghost given = added@;
        tools.append(&mut added);
        assert(views(tools@) =~= before + views(given));
        AgentBuilder { tools, ..self }
    }

    /// Sets the policy.
    pub fn policy(self, policy: Arc<P>) -> (r: AgentBuilder<P>)
        ensures
            r@ == (BuilderView { policy, ..self@ }),
    {
        AgentBuilder { policy, ..self }
    }

    /// Sets an executor, which goes before tools, policy and limits.
    pub fn executor(self, executor: Arc<ToolExecutor<P>>) -> (r: AgentBuilder<P>)
        ensures
            r@ == (BuilderView { executor_override: Some(executor), ..self@ }),
    {
        AgentBuilder { executor_override: Some(executor), ..self }
    }

    /// Limits the turns of a run.
    pub fn max_turns(self, max_turns: usize) -> (r: AgentBuilder<P>)
        ensures
            r@ == (BuilderView { max_turns, ..self@ }),
    {
        AgentBuilder { max_turns, ..self }
    }

    /// Limits the tokens of an answer.
    pub fn max_tokens(self, max_tokens: u32) -> (r: AgentBuilder<P>)
        ensures
            r@ == (BuilderView { max_tokens, ..self@ }),
    {
        AgentBuilder { max_tokens, ..self }
    }

    /// Sets the sampling temperature, as the number that goes on the wire.
    pub fn temperature(self, temperature: JsonNumber) -> (r: AgentBuilder<P>)
        ensures
            r@ == (BuilderView { temperature: Some(temperature), ..self@ }),
    {
        AgentBuilder { temperature: Some(temperature), ..self }
    }

    /// Sets the thinking configuration of each call.
    pub fn thinking(self, thinking: ThinkingConfig) -> (r: AgentBuilder<P>)
        ensures
            r@ == (BuilderView { thinking: Some(thinking), ..self@ }),
    {
        AgentBuilder { thinking: Some(thinking), ..self }
    }

    /// Tells the model of the named tools only.
    pub fn tool_definition_filter(self, allowed: Vec<String>) -> (r: AgentBuilder<P>)
        ensures
            r@ == (BuilderView { tool_definition_filter: Some(views(allowed@)), ..self@ }),
    {
        AgentBuilder { tool_definition_filter: Some(allowed), ..self }
    }

    /// Limits how deep agents may nest.
    pub fn max_depth(self, depth: usize) -> (r: AgentBuilder<P>)
        ensures
            r@ == (BuilderView { max_depth: depth, ..self@ }),
    {
        AgentBuilder { max_depth: depth, ..self }
    }

    /// Says how deep the agent is nested.
    pub fn depth(self, depth: usize) -> (r: AgentBuilder<P>)
        ensures
            r@ == (BuilderView { depth, ..self@ }),
    {
        AgentBuilder { depth, ..self }
    }

    /// Limits how many reads run at once.
    #[must_use]
    pub fn max_concurrent_reads(self, n: usize) -> (r: AgentBuilder<P>)
        requires
            n > 0,
        ensures
            r@ == (BuilderView { read_cap: n, ..self@ }),
    {
        AgentBuilder { read_cap: n, ..self }
    }

    /// Limits how many promoted mutators run at once.
    #[must_use]
    pub fn max_concurrent_mutations(self, n: usize) -> (r: AgentBuilder<P>)
        requires
            n > 0,
        ensures
            r@ == (BuilderView { mut_cap: n, ..self@ }),
    {
        AgentBuilder { mut_cap: n, ..self }
    }

    /// Sets how one tool may overlap.
    #[must_use]
    pub fn tool_concurrency(self, name: String, setting: ToolConcurrency) -> (r: AgentBuilder<P>)
        ensures
            r@ == self@.with_settings(seq![(name, setting)]),
    {
        let mut tool_concurrencies: Vec<(String, ToolConcurrency)> = self.tool_concurrencies;
        tool_concurrencies.push((name, setting));
        assert(tool_concurrencies@ =~= self@.tool_concurrencies + seq![(name, setting)]);
        AgentBuilder { tool_concurrencies, ..self }
    }

    /// Sets how several tools may overlap.
    #[must_use]
    pub fn tool_concurrencies(self, entries: Vec<(String, ToolConcurrency)>) -> (r: AgentBuilder<
        P,
    >)
        ensures
            r@ == self@.with_settings(entries@),
    {
        let mut tool_concurrencies: Vec<(String, ToolConcurrency)> = self.tool_concurrencies;
        let mut added: Vec<(String, ToolConcurrency)> = entries;
        tool_concurrencies.append(&mut added);
        AgentBuilder { tool_concurrencies, ..self }
    }

    /// Whether [`AgentBuilder::build`] can be called: the tools are refused
    /// in any case, or the model is named and every limit can be set up.
    pub fn is_ready(&self) -> (r: bool)
        ensures
            r == (self@.refusal() is None ==> self@.ready()),
    {
        if self.executor_override.is_some() {
            return self.model.is_some();
        }
        if validate_tool_names(&self.tools).is_err() {
            return true;
        }
        let limit: usize = usize::MAX / 8;
        if self.model.is_none() || self.read_cap == 0 || self.read_cap > limit || self.mut_cap == 0
            || self.mut_cap > limit {
            return false;
        }
        limits_in_range(&self.tool_concurrencies)
    }

    /// Builds the agent. Tools of which two have the same name are refused,
    /// unless an executor was given.
    pub fn build(self) -> (r: Result<Agent<P>, BuildError>)
        requires
            self@.refusal() is None ==> self@.ready(),
        ensures
            match self@.refusal() {
                Some(i) => match r {
                    Err(BuildError::DuplicateToolName { name, count }) => name@
                        == self@.tools[i].name && count == occurrences(self@.tools, name@),
                    Ok(_) => false,
                },
                None => match r {
                    Ok(agent) => self@.describes(agent@),
                    Err(_) => false,
                },
            },
    {
        let executor: Arc<ToolExecutor<P>> = match self.executor_override {
            Some(executor) => executor,
            None => {
                match validate_tool_names(&self.tools) {
                    Err(error) => {
                        return Err(error);
                    },
                    Ok(_) => {},
                }
                let registry: Arc<ToolRegistry> = Arc::new(ToolRegistry::new(self.tools));
                let concurrency: ConcurrencyConfig = ConcurrencyConfig::new(
                    self.read_cap,
                    self.mut_cap,
                    self.tool_concurrencies,
                );
                Arc::new(ToolExecutor::with_concurrency(registry, self.policy, concurrency))
            },
        };
        let model: String = match self.model {
            Some(model) => model,
            None => String::new(),
        };
        Ok(
            Agent {
                model,
                system: self.system,
                executor,
                max_turns: self.max_turns,
                max_tokens: self.max_tokens,
                temperature: self.temperature,
                max_depth: self.max_depth,
                depth: self.depth,
                cache_tools: self.cache_tools,
                thinking: self.thinking,
                tool_definition_filter: self.tool_definition_filter,
            },
        )
    }
}

/// The model is told of a tool exactly where it is visible: its name, its
/// description and its input schema, as the tool says them.
pub proof fn visible_tools_are_told(
    given: Seq<ToolSpecView>,
    filter: Option<Seq<Seq<char>>>,
    k: int,
)
    requires
        0 <= k < registered(given).len(),
    ensures
        ({
            let tool = registered(given)[k];
            let definitions = sorted_definitions(registered(given), filter);
            &&& definitions.contains(
                ToolDefinitionView {
                    name: tool.name,
                    description: tool.description,
                    input_schema: tool.input_schema,
                    cache_control: None,
                },
            ) <==> match filter {
                Some(names) => names.contains(tool.name),
                None => true,
            }
            &&& forall|i: int|
                0 <= i < definitions.len() ==> (#[trigger] definitions[i]).cache_control is None
        }),
{
    let tools = registered(given);
    let tool = tools[k];
    let definitions = sorted_definitions(tools, filter);
    definitions_are_sorted(given, filter);
    later_registration_wins(given, tool.name);
    let told = definition_of(tool);
    assert(told == (ToolDefinitionView {
        name: tool.name,
        description: tool.description,
        input_schema: tool.input_schema,
        cache_control: None,
    }));
    if definitions.contains(told) {
        let j = choose|j: int|
            0 <= j < tools.len() && is_visible(filter, tools[j].name) && definition_of(
                #[trigger] tools[j],
            ) == told;
        assert(tools[j].name == tool.name);
    }
    if is_visible(filter, tool.name) {
        assert(definition_of(tools[k]) == told);
    }
    assert forall|i: int| 0 <= i < definitions.len() implies (
    #[trigger] definitions[i]).cache_control is None by {
        assert(definitions.contains(definitions[i]));
    }
}

/// A cache breakpoint goes on the last definition and changes nothing else.
pub proof fn breakpoints_mark_the_last(
    definitions: Seq<ToolDefinitionView>,
    cache_control: Option<CacheControl>,
)
    ensures
        ({
            let marked = with_breakpoint(definitions, cache_control);
            &&& marked.len() == definitions.len()
            &&& cache_control is None ==> marked == definitions
            &&& forall|i: int|
                0 <= i < marked.len() - 1 ==> #[trigger] marked[i] == definitions[i]
            &&& marked.len() > 0 && cache_control is Some ==> marked.last() == (
            ToolDefinitionView { cache_control, ..definitions.last() })
        }),
{
}

/// A run goes by what the agent is set to: its model, prompt, limits and
/// settings, and the definitions of its tools.
pub proof fn runs_follow_the_agent<P: ToolPolicy + ?Sized>(agent: AgentView<P>, streaming: bool)
    ensures
        agent.settings(streaming).model == agent.model,
        agent.settings(streaming).system == agent.system,
        agent.settings(streaming).max_turns == agent.max_turns,
        agent.settings(streaming).max_tokens == agent.max_tokens,
        agent.settings(streaming).temperature == agent.temperature,
        agent.settings(streaming).thinking == agent.thinking,
        agent.settings(streaming).streaming == streaming,
        agent.settings(streaming).tools == with_breakpoint(
            sorted_definitions(agent.executor.tools(), agent.tool_definition_filter),
            agent.cache_tools,
        ),
{
}

/// An agent that was built is as it was described.
pub proof fn agents_are_as_described<P: ToolPolicy + ?Sized>(
    builder: BuilderView<P>,
    agent: AgentView<P>,
    name: Seq<char>,
)
    requires
        builder.describes(agent),
    ensures
        builder.model == Some(agent.model),
        agent.system == builder.system,
        agent.max_turns == builder.max_turns,
        agent.max_tokens == builder.max_tokens,
        agent.temperature == builder.temperature,
        agent.thinking == builder.thinking,
        agent.max_depth == builder.max_depth,
        agent.depth == builder.depth,
        agent.cache_tools == builder.cache_tools,
        agent.tool_definition_filter == builder.tool_definition_filter,
        builder.executor_override is Some ==> builder.executor_override == Some(agent.executor),
        builder.executor_override is None ==> {
            &&& agent.executor.tools() == registered(builder.tools)
            &&& agent.executor.allows(name) == builder.policy.allows(name)
            &&& agent.executor.limits().read_pool().cap() == builder.read_cap
            &&& agent.executor.limits().concurrent_pool().cap() == builder.mut_cap
            &&& agent.executor.limits().serial_pool().cap() == 1
        },
{
}

/// How often a name occurs: once for each tool that has it.
pub proof fn names_are_counted(tools: Seq<ToolSpecView>, tool: ToolSpecView, name: Seq<char>)
    ensures
        occurrences(Seq::<ToolSpecView>::empty(), name) == 0,
        tool.name == name ==> occurrences(tools.push(tool), name) == occurrences(tools, name) + 1,
        tool.name != name ==> occurrences(tools.push(tool), name) == occurrences(tools, name),
{
    assert(tools.push(tool).drop_last() =~= tools);
}

/// An agent of which nothing else is said goes as far as the defaults: fifty
/// turns, answers of sixteen thousand tokens, three levels, twenty reads and ten
/// overlapping mutators at once, at the outermost level, with every tool told
/// and nothing cached.
pub proof fn builders_begin_with_defaults<P: ToolPolicy + ?Sized>(policy: Arc<P>)
    ensures
        ({
            let fresh = BuilderView::fresh(policy);
            &&& fresh.policy == policy
            &&& fresh.max_turns == 50 && fresh.max_tokens == 16384
            &&& fresh.max_depth == 3 && fresh.depth == 0
            &&& fresh.read_cap == 20 && fresh.mut_cap == 10
            &&& fresh.tools.len() == 0 && fresh.tool_concurrencies.len() == 0
            &&& fresh.model is None && fresh.system is None && fresh.executor_override is None
            &&& fresh.temperature is None && fresh.thinking is None && fresh.cache_tools is None
            &&& fresh.tool_definition_filter is None
        }),
{
}

/// The tool that a refusal names is the first whose name another tool has too.
pub proof fn refusals_name_the_first_duplicate(tools: Seq<ToolSpecView>)
    ensures
        match first_duplicate(tools, 0) {
            Some(i) => {
                &&& 0 <= i < tools.len()
                &&& exists|j: int|
                    0 <= j < tools.len() && j != i && (#[trigger] tools[j]).name == tools[i].name
                &&& forall|h: int, j: int|
                    0 <= h < i && 0 <= j < tools.len() && j != h ==> (#[trigger] tools[h]).name
                        != (#[trigger] tools[j]).name
            },
            None => distinct_tools(tools),
        },
{
    refused_exactly_for_duplicates(tools);
    no_duplicate_from(tools, 0);
    match first_duplicate(tools, 0) {
        Some(i) => {
            first_duplicate_is_first(tools, 0);
            if forall|j: int|
                0 <= j < tools.len() && j != i ==> (#[trigger] tools[j]).name != tools[i].name {
                occurs_only_at(tools, i);
            }
            assert forall|h: int, j: int|
                0 <= h < i && 0 <= j < tools.len() && j != h implies (#[trigger] tools[h]).name != (
            #[trigger] tools[j]).name by {
                assert(occurrences(tools, tools[h].name) <= 1);
                if tools[h].name == tools[j].name {
                    if h < j {
                        occurs_twice(tools, h, j);
                    } else {
                        occurs_twice(tools, j, h);
                    }
                }
            }
        },
        None => {},
    }
}

proof fn first_duplicate_is_first(tools: Seq<ToolSpecView>, from: int)
    requires
        0 <= from,
        first_duplicate(tools, from) is Some,
    ensures
        forall|h: int|
            from <= h < first_duplicate(tools, from)->0 ==> occurrences(
                tools,
                (#[trigger] tools[h]).name,
            ) <= 1,
    decreases tools.len() - from,
{
    if from < tools.len() && occurrences(tools, tools[from].name) <= 1 {
        first_duplicate_is_first(tools, from + 1);
    }
}

proof fn occurs_only_at(tools: Seq<ToolSpecView>, at: int)
    requires
        0 <= at < tools.len(),
        forall|j: int|
            0 <= j < tools.len() && j != at ==> (#[trigger] tools[j]).name != tools[at].name,
    ensures
        occurrences(tools, tools[at].name) == 1,
    decreases tools.len(),
{
    let rest = tools.drop_last();
    assert(forall|j: int| 0 <= j < rest.len() ==> #[trigger] rest[j] == tools[j]);
    if at == tools.len() - 1 {
        occurs_nowhere(rest, tools[at].name);
    } else {
        occurs_only_at(rest, at);
        assert(tools[tools.len() - 1].name != tools[at].name);
    }
}

proof fn occurs_nowhere(tools: Seq<ToolSpecView>, name: Seq<char>)
    requires
        forall|j: int| 0 <= j < tools.len() ==> (#[trigger] tools[j]).name != name,
    ensures
        occurrences(tools, name) == 0,
    decreases tools.len(),
{
    if tools.len() > 0 {
        let rest = tools.drop_last();
        assert(forall|j: int| 0 <= j < rest.len() ==> #[trigger] rest[j] == tools[j]);
        occurs_nowhere(rest, name);
        assert(tools[tools.len() - 1].name != name);
    }
}

/// Tools of which two have the same name are refused, unless the agent has an
/// executor of its own.
pub proof fn agents_are_refused_for_their_tools<P: ToolPolicy + ?Sized>(builder: BuilderView<P>)
    ensures
        builder.refusal() is Some <==> builder.executor_override is None && exists|
            i: int,
            j: int,
        |
            0 <= i < j < builder.tools.len() && (#[trigger] builder.tools[i]).name == (
            #[trigger] builder.tools[j]).name,
        builder.refusal() is Some ==> builder.refusal() == first_duplicate(builder.tools, 0),
{
    refused_exactly_for_duplicates(builder.tools);
}

/// Tools and settings are added behind those that are there, and none is lost:
/// to add some and then more is to add all of them at once.
pub proof fn tools_and_settings_are_added<P: ToolPolicy + ?Sized>(
    builder: BuilderView<P>,
    some: Seq<ToolSpecView>,
    more: Seq<ToolSpecView>,
    settings: Seq<(String, ToolConcurrency)>,
    others: Seq<(String, ToolConcurrency)>,
)
    ensures
        builder.with_tools(some).with_tools(more) == builder.with_tools(some + more),
        builder.with_tools(some).tools.len() == builder.tools.len() + some.len(),
        forall|i: int|
            0 <= i < builder.tools.len() ==> #[trigger] builder.with_tools(some).tools[i]
                == builder.tools[i],
        forall|i: int|
            0 <= i < some.len() ==> builder.with_tools(some).tools[builder.tools.len() + i]
                == #[trigger] some[i],
        builder.with_tools(some).tool_concurrencies == builder.tool_concurrencies,
        builder.with_settings(settings).with_settings(others) == builder.with_settings(
            settings + others,
        ),
        builder.with_settings(settings).tool_concurrencies.len()
            == builder.tool_concurrencies.len() + settings.len(),
        forall|i: int|
            0 <= i < settings.len() ==> builder.with_settings(
                settings,
            ).tool_concurrencies[builder.tool_concurrencies.len() + i] == #[trigger] settings[i],
        builder.with_settings(settings).tools == builder.tools,
{
    assert(builder.tools + some + more =~= builder.tools + (some + more));
    assert(builder.tool_concurrencies + settings + others =~= builder.tool_concurrencies + (settings
        + others));
}

} // verus!
