//! Tool policies and their composition.
//!
//! Scoping is deny-monotonic: a child scope can only take capability away
//! from its parent, never give back what the parent denied.
use crate::text::{same_text, views};
use std::sync::Arc;
use vstd::prelude::*;

verus! {

/// Decides which tools may run.
pub trait ToolPolicy: Send + Sync {
    /// Whether the tool with the given name is allowed.
    open spec fn allows(&self, name: Seq<char>) -> bool {
        arbitrary()
    }

    fn is_allowed(&self, tool_name: &str) -> (allowed: bool)
        ensures
            allowed == self.allows(tool_name@),
    ;
}

/// Every tool is allowed.
#[derive(Clone, Copy, Debug, PartialEq, Eq, Structural)]
pub struct AllowAll;

impl ToolPolicy for AllowAll {
    open spec fn allows(&self, name: Seq<char>) -> bool {
        true
    }

    fn is_allowed(&self, tool_name: &str) -> (allowed: bool) {
        true
    }
}

/// Only the tools on the list are allowed.
#[derive(Debug)]
pub struct AllowList(Vec<String>);

impl AllowList {
    /// The names on the list.
    pub closed spec fn names(&self) -> Seq<Seq<char>> {
        views(self.0@)
    }

    /// A list of the given names.
    pub fn new(tools: Vec<String>) -> (r: AllowList)
        ensures
            r.names() == views(tools@),
    {
        AllowList(tools)
    }
}

impl ToolPolicy for AllowList {
    open spec fn allows(&self, name: Seq<char>) -> bool {
        self.names().contains(name)
    }

    fn is_allowed(&self, tool_name: &str) -> (allowed: bool) {
        let mut i: usize = 0;
        while i < self.0.len()
            invariant
                i <= self.0.len(),
                forall|k: int| 0 <= k < i ==> #[trigger] self.names()[k] != tool_name@,
            decreases self.0.len() - i,
        {
            if same_text(self.0[i].as_str(), tool_name) {
                assert(self.names()[i as int] == tool_name@);
                return true;
            }
            i = i + 1;
        }
        false
    }
}

/// Two policies at once: both must allow the tool.
pub struct IntersectPolicy<L: ToolPolicy + ?Sized, R: ToolPolicy + ?Sized> {
    pub left: Arc<L>,
    pub right: Arc<R>,
}

impl<L: ToolPolicy + ?Sized, R: ToolPolicy + ?Sized> ToolPolicy for IntersectPolicy<L, R> {
    open spec fn allows(&self, name: Seq<char>) -> bool {
        self.left.allows(name) && self.right.allows(name)
    }

    fn is_allowed(&self, tool_name: &str) -> (allowed: bool) {
        self.left.is_allowed(tool_name) && self.right.is_allowed(tool_name)
    }
}

/// Composition only takes away: what the intersection allows, both sides
/// allow, and what one side denies stays denied.
pub proof fn intersection_is_deny_monotonic<
    L: ToolPolicy + ?Sized,
    R: ToolPolicy + ?Sized,
>(both: IntersectPolicy<L, R>, name: Seq<char>)
    ensures
        both.allows(name) ==> both.left.allows(name) && both.right.allows(name),
        !both.left.allows(name) ==> !both.allows(name),
        !both.right.allows(name) ==> !both.allows(name),
{
}

/// Intersecting with a policy that allows everything changes nothing.
pub proof fn intersection_with_allow_all<R: ToolPolicy + ?Sized>(
    left: IntersectPolicy<AllowAll, R>,
    right: IntersectPolicy<R, AllowAll>,
    name: Seq<char>,
)
    ensures
        left.allows(name) == left.right.allows(name),
        right.allows(name) == right.left.allows(name),
{
}

/// A policy narrowed by any number of allow lists, as nested agents narrow
/// it: every one of them must allow the tool.
pub struct ScopedPolicy<P: ToolPolicy + ?Sized> {
    base: Arc<P>,
    scopes: Vec<Arc<AllowList>>,
}

/// Whether every list of a stack allows a tool.
pub open spec fn all_allow(scopes: Seq<Arc<AllowList>>, name: Seq<char>) -> bool {
    forall|i: int| 0 <= i < scopes.len() ==> (#[trigger] scopes[i]).allows(name)
}

impl<P: ToolPolicy + ?Sized> ScopedPolicy<P> {
    /// The policy without the lists.
    pub closed spec fn base(&self) -> Arc<P> {
        self.base
    }

    /// The lists, outermost first.
    pub closed spec fn scopes(&self) -> Seq<Arc<AllowList>> {
        self.scopes@
    }

    /// The policy as it is.
    pub fn new(base: Arc<P>) -> (r: ScopedPolicy<P>)
        ensures
            r.base() == base,
            r.scopes() == Seq::<Arc<AllowList>>::empty(),
            forall|name: Seq<char>| #[trigger] r.allows(name) == base.allows(name),
    {
        let r: ScopedPolicy<P> = ScopedPolicy { base, scopes: Vec::new() };
        assert(r.scopes() =~= Seq::empty());
        r
    }

    /// The policy narrowed by one more list: exactly the tools that it allows
    /// and that are on the list.
    pub fn narrowed(&self, list: AllowList) -> (r: ScopedPolicy<P>)
        ensures
            r.base() == self.base(),
            r.scopes() == self.scopes().push(Arc::new(list)),
            forall|name: Seq<char>|
                #[trigger] r.allows(name) == (self.allows(name) && list.allows(name)),
    {
        let mut scopes: Vec<Arc<AllowList>> = Vec::new();
        let mut i: usize = 0;
        while i < self.scopes.len()
            invariant
                i <= self.scopes.len(),
                scopes@ == self.scopes@.take(i as int),
            decreases self.scopes.len() - i,
        {
            scopes.push(self.scopes[i].clone());
            assert(scopes@ =~= self.scopes@.take(i + 1));
            i = i + 1;
        }
        assert(self.scopes@.take(i as int) =~= self.scopes@);
        scopes.push(Arc::new(list));
        let r: ScopedPolicy<P> = ScopedPolicy { base: self.base.clone(), scopes };
        proof {
            assert forall|name: Seq<char>| #[trigger]
                r.allows(name) == (self.allows(name) && list.allows(name)) by {
                let more = r.scopes();
                let less = self.scopes();
                assert(more[less.len() as int] == Arc::new(list));
                if all_allow(more, name) {
                    assert forall|i: int| 0 <= i < less.len() implies (#[trigger] less[i]).allows(
                        name,
                    ) by {
                        assert(more[i] == less[i]);
                    }
                }
                if all_allow(less, name) && list.allows(name) {
                    assert forall|i: int| 0 <= i < more.len() implies (#[trigger] more[i]).allows(
                        name,
                    ) by {
                        if i < less.len() {
                            assert(more[i] == less[i]);
                        }
                    }
                }
            }
        }
        r
    }
}

impl<P: ToolPolicy + ?Sized> ToolPolicy for ScopedPolicy<P> {
    open spec fn allows(&self, name: Seq<char>) -> bool {
        self.base().allows(name) && all_allow(self.scopes(), name)
    }

    fn is_allowed(&self, tool_name: &str) -> (allowed: bool) {
        if !self.base.is_allowed(tool_name) {
            return false;
        }
        let mut i: usize = 0;
        while i < self.scopes.len()
            invariant
                i <= self.scopes.len(),
                forall|k: int| 0 <= k < i ==> (#[trigger] self.scopes()[k]).allows(tool_name@),
            decreases self.scopes.len() - i,
        {
            if !self.scopes[i].is_allowed(tool_name) {
                assert(!self.scopes()[i as int].allows(tool_name@));
                return false;
            }
            i = i + 1;
        }
        true
    }
}

/// A list allows exactly the names on it, and a narrowed policy exactly what it
/// allowed without the lists and every list allows.
pub proof fn narrowed_policies_allow_what_all_allow<P: ToolPolicy + ?Sized>(
    list: AllowList,
    scoped: ScopedPolicy<P>,
    name: Seq<char>,
)
    ensures
        list.allows(name) <==> exists|i: int|
            0 <= i < list.names().len() && #[trigger] list.names()[i] == name,
        scoped.allows(name) <==> scoped.base().allows(name) && forall|i: int|
            0 <= i < scoped.scopes().len() ==> (#[trigger] scoped.scopes()[i]).names().contains(
                name,
            ),
        AllowAll.allows(name),
{
    assert forall|i: int| 0 <= i < scoped.scopes().len() implies (
    #[trigger] scoped.scopes()[i]).allows(name) == scoped.scopes()[i].names().contains(name) by {}
}

} // verus!
