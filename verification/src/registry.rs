//! The tools that an agent knows.
use crate::text::{same_text, views};
use crate::tool::{ToolSpec, ToolSpecView};
use vstd::prelude::*;

verus! {

/// The position of the tool with a name.
pub open spec fn named_position(tools: Seq<ToolSpecView>, name: Seq<char>) -> Option<int>
    decreases tools.len(),
{
    if tools.len() == 0 {
        None
    } else if tools.last().name == name {
        Some(tools.len() - 1)
    } else {
        named_position(tools.drop_last(), name)
    }
}

/// The tool with a name; the last counts where several have it.
pub open spec fn named(tools: Seq<ToolSpecView>, name: Seq<char>) -> Option<ToolSpecView> {
    match named_position(tools, name) {
        Some(i) => Some(tools[i]),
        None => None,
    }
}

/// The tools with one more: a tool of the same name gives its place to it.
pub open spec fn with_registered(tools: Seq<ToolSpecView>, tool: ToolSpecView) -> Seq<
    ToolSpecView,
> {
    match named_position(tools, tool.name) {
        Some(i) => tools.update(i, tool),
        None => tools.push(tool),
    }
}

/// The tools after registering several in order.
pub open spec fn registered(tools: Seq<ToolSpecView>) -> Seq<ToolSpecView>
    decreases tools.len(),
{
    if tools.len() == 0 {
        Seq::empty()
    } else {
        with_registered(registered(tools.drop_last()), tools.last())
    }
}

/// No two tools have the same name.
pub open spec fn distinct_tools(tools: Seq<ToolSpecView>) -> bool {
    forall|i: int, j: int|
        0 <= i < j < tools.len() ==> (#[trigger] tools[i]).name != (#[trigger] tools[j]).name
}

/// A found position holds the name.
pub proof fn named_position_holds(tools: Seq<ToolSpecView>, name: Seq<char>)
    ensures
        match named_position(tools, name) {
            Some(i) => 0 <= i < tools.len() && tools[i].name == name && forall|k: int|
                i < k < tools.len() ==> (#[trigger] tools[k]).name != name,
            None => forall|k: int| 0 <= k < tools.len() ==> (#[trigger] tools[k]).name != name,
        },
    decreases tools.len(),
{
    if tools.len() > 0 && tools.last().name != name {
        let rest = tools.drop_last();
        named_position_holds(rest, name);
        assert forall|k: int| 0 <= k < rest.len() implies #[trigger] tools[k] == rest[k] by {}
    }
}

proof fn named_position_is(tools: Seq<ToolSpecView>, name: Seq<char>, at: int)
    requires
        0 <= at < tools.len(),
        tools[at].name == name,
        forall|k: int| at < k < tools.len() ==> (#[trigger] tools[k]).name != name,
    ensures
        named_position(tools, name) == Some(at),
{
    named_position_holds(tools, name);
    match named_position(tools, name) {
        Some(i) => {
            if i < at {
                assert(tools[at].name != name);
            } else if at < i {
                assert(tools[i].name != name);
            }
        },
        None => {
            assert(tools[at].name != name);
        },
    }
}

proof fn registered_lookup(tools: Seq<ToolSpecView>, tool: ToolSpecView, name: Seq<char>)
    requires
        distinct_tools(tools),
    ensures
        distinct_tools(with_registered(tools, tool)),
        named(with_registered(tools, tool), name) == if name == tool.name {
            Some(tool)
        } else {
            named(tools, name)
        },
{
    named_position_holds(tools, tool.name);
    named_position_holds(tools, name);
    let out = with_registered(tools, tool);
    named_position_holds(out, name);
    match named_position(tools, tool.name) {
        Some(i) => {
            assert forall|a: int, b: int| 0 <= a < b < out.len() implies (#[trigger] out[a]).name
                != (#[trigger] out[b]).name by {
                assert(tools[a].name != tools[b].name);
            }
            if name == tool.name {
                assert forall|k: int| i < k < out.len() implies (#[trigger] out[k]).name
                    != name by {
                    assert(tools[k].name != name);
                }
                named_position_is(out, name, i);
            } else {
                match named_position(tools, name) {
                    Some(p) => {
                        assert(out[p] == tools[p]);
                        assert forall|k: int| p < k < out.len() implies (#[trigger] out[k]).name
                            != name by {
                            if k != i {
                                assert(tools[k].name != name);
                            }
                        }
                        named_position_is(out, name, p);
                    },
                    None => {
                        match named_position(out, name) {
                            Some(q) => {
                                if q != i {
                                    assert(tools[q].name == name);
                                }
                            },
                            None => {},
                        }
                    },
                }
            }
        },
        None => {
            assert forall|a: int, b: int| 0 <= a < b < out.len() implies (#[trigger] out[a]).name
                != (#[trigger] out[b]).name by {
                assert(out[a] == tools[a]);
                if b < tools.len() {
                    assert(out[b] == tools[b]);
                }
            }
            assert(out.drop_last() =~= tools);
        },
    }
}

/// Of several tools with one name the last registered counts, and no name is
/// there twice.
pub proof fn later_registration_wins(tools: Seq<ToolSpecView>, name: Seq<char>)
    ensures
        distinct_tools(registered(tools)),
        named(registered(tools), name) == named(tools, name),
    decreases tools.len(),
{
    if tools.len() > 0 {
        later_registration_wins(tools.drop_last(), name);
        registered_lookup(registered(tools.drop_last()), tools.last(), name);
        named_position_holds(tools.drop_last(), name);
    }
}

/// The tools that an agent knows, by name.
#[derive(Debug)]
pub struct ToolRegistry {
    tools: Vec<ToolSpec>,
}

impl View for ToolRegistry {
    type V = Seq<ToolSpecView>;

    closed spec fn view(&self) -> Seq<ToolSpecView> {
        views(self.tools@)
    }
}

fn position(tools: &Vec<ToolSpec>, name: &str) -> (r: Option<usize>)
    ensures
        match r {
            Some(i) => named_position(views(tools@), name@) == Some(i as int) && i < tools@.len(),
            None => named_position(views(tools@), name@) is None,
        },
{
    let ghost all = views(tools@);
    let mut i: usize = tools.len();
    assert(all.take(i as int) =~= all);
    while 0 < i
        invariant
            i <= tools.len(),
            all == views(tools@),
            named_position(all, name@) == named_position(all.take(i as int), name@),
        decreases i,
    {
        assert(all.take(i as int).last() == tools@[i - 1]@);
        if same_text(tools[i - 1].name.as_str(), name) {
            return Some(i - 1);
        }
        assert(all.take(i as int).drop_last() =~= all.take(i - 1));
        i = i - 1;
    }
    None
}

impl ToolRegistry {
    /// No name is there twice.
    #[verifier::type_invariant]
    closed spec fn inv(&self) -> bool {
        distinct_tools(self@)
    }

    /// Registers tools in order; a later one takes the place of an earlier
    /// one with the same name.
    pub fn new(tools: Vec<ToolSpec>) -> (r: ToolRegistry)
        ensures
            r@ == registered(views(tools@)),
            distinct_tools(r@),
    {
        let ghost given = tools@;
        let ghost all = views(given);
        let mut known: Vec<ToolSpec> = Vec::new();
        assert(views(known@) =~= registered(all.take(0)));
        for tool in it: tools
            invariant
                it.seq() == given,
                all == views(given),
                views(known@) == registered(all.take(it.index() as int)),
        {
            let ghost at = it.index() as int;
            let ghost before = views(known@);
            proof {
                assert(given[at] == tool);
                assert(all.take(at + 1).drop_last() =~= all.take(at));
                assert(all.take(at + 1).last() == tool@);
            }
            match position(&known, tool.name.as_str()) {
                Some(i) => {
                    known.set(i, tool);
                },
                None => {
                    known.push(tool);
                },
            }
            assert(views(known@) =~= with_registered(before, tool@));
        }
        assert(all.take(all.len() as int) =~= all);
        proof {
            later_registration_wins(all, Seq::empty());
        }
        ToolRegistry { tools: known }
    }

    /// The tool with a name.
    pub fn get(&self, name: &str) -> (r: Option<&ToolSpec>)
        ensures
            match r {
                Some(tool) => named(self@, name@) == Some(tool@),
                None => named(self@, name@) is None,
            },
    {
        match position(&self.tools, name) {
            Some(i) => Some(&self.tools[i]),
            None => None,
        }
    }

    /// The tools, in the order in which their names were first registered; no
    /// name is there twice.
    pub fn iter(&self) -> (r: &Vec<ToolSpec>)
        ensures
            views(r@) == self@,
            distinct_tools(self@),
    {
        proof {
            use_type_invariant(self);
        }
        &self.tools
    }

    /// How many tools there are.
    pub fn len(&self) -> (r: usize)
        ensures
            r == self@.len(),
    {
        self.tools.len()
    }

    /// Whether there are none.
    pub fn is_empty(&self) -> (r: bool)
        ensures
            r == (self@.len() == 0),
    {
        self.tools.len() == 0
    }
}

/// A lookup finds the tool that was registered last under the name, as it was
/// registered, and nothing under a name that no tool has.
pub proof fn lookups_find_the_last(given: Seq<ToolSpecView>, k: int, name: Seq<char>)
    ensures
        0 <= k < given.len() && given[k].name == name && (forall|j: int|
            k < j < given.len() ==> (#[trigger] given[j]).name != name) ==> named(
            registered(given),
            name,
        ) == Some(given[k]),
        (forall|j: int| 0 <= j < given.len() ==> (#[trigger] given[j]).name != name) ==> named(
            registered(given),
            name,
        ) is None,
{
    later_registration_wins(given, name);
    named_position_holds(given, name);
}

/// A tool with a new name goes behind the others; one with a known name takes
/// the place of the one that had it. No other tool moves.
pub proof fn registering_keeps_places(tools: Seq<ToolSpecView>, tool: ToolSpecView, at: int)
    requires
        distinct_tools(tools),
    ensures
        0 <= at < tools.len() && tools[at].name == tool.name ==> with_registered(tools, tool)
            == tools.update(at, tool),
        (forall|k: int| 0 <= k < tools.len() ==> (#[trigger] tools[k]).name != tool.name)
            ==> with_registered(tools, tool) == tools.push(tool),
{
    named_position_holds(tools, tool.name);
    match named_position(tools, tool.name) {
        Some(i) => {
            if 0 <= at < tools.len() && tools[at].name == tool.name && at != i {
                if at < i {
                    assert(tools[at].name != tools[i].name);
                } else {
                    assert(tools[i].name != tools[at].name);
                }
            }
        },
        None => {},
    }
}

} // verus!
