//! Runtime prompt policies: scoped additions to the system prompt.
use crate::guard::AgentSnapshot;
use crate::message::optional_text;
use crate::text::{blank, decimal, decimal_text, is_blank, views};
use std::sync::Arc;
use vstd::prelude::*;
use vstd::string::*;

verus! {

/// Identifies an installed policy.
#[derive(Clone, Copy, Debug, PartialEq, Eq, Hash, Structural)]
pub struct PolicyId(u64);

impl PolicyId {
    /// The number behind the identifier.
    pub closed spec fn number(self) -> u64 {
        self.0
    }
}

/// How long an installed policy lives.
#[derive(Clone, Copy, Debug, PartialEq, Eq, Structural)]
pub enum PolicyScope {
    /// It applies once, to the next request that its trigger matches.
    NextTurn,
    /// It applies to every request that its trigger matches until removed.
    EveryTurnUntilRemoved,
    /// It applies for the lifetime of the handle, unless removed.
    Persistent,
}

/// Decides whether a policy applies. It may answer differently each time it
/// is asked.
pub trait IntentMatcher: Send + Sync {
    /// Whether the matcher may be asked.
    open spec fn ready(&self, snapshot: &AgentSnapshot) -> bool {
        true
    }

    fn matches(&self, snapshot: &AgentSnapshot) -> bool
        requires
            self.ready(snapshot),
    ;
}

impl<F: Fn(&AgentSnapshot) -> bool + Send + Sync> IntentMatcher for F {
    open spec fn ready(&self, snapshot: &AgentSnapshot) -> bool {
        call_requires(*self, (snapshot,))
    }

    fn matches(&self, snapshot: &AgentSnapshot) -> (r: bool)
        ensures
            call_ensures(*self, (snapshot,), r),
    {
        self(snapshot)
    }
}

/// A value that several owners share.
pub struct Shared<T: ?Sized> {
    pub value: Arc<T>,
}

impl<T: ?Sized> Clone for Shared<T> {
    fn clone(&self) -> (r: Shared<T>)
        ensures
            r == *self,
    {
        Shared { value: self.value.clone() }
    }
}

/// When an installed policy goes into a request.
pub enum PolicyTrigger {
    /// Whenever its scope allows it.
    Always,
    /// When the matcher says so.
    OnIntentMatch(Shared<dyn IntentMatcher>),
}

/// A policy as the caller describes it.
pub struct PromptPolicy {
    /// Shown in the marker above the policy's text.
    pub name: String,
    pub scope: PolicyScope,
    pub content: String,
    /// Lower numbers are applied first.
    pub precedence: u8,
    pub trigger: PolicyTrigger,
}

/// The shape of a trigger.
#[derive(Clone, Copy, Debug, PartialEq, Eq, Structural)]
pub enum PolicyTriggerMetadata {
    Always,
    IntentMatcher,
}

/// What a listing tells of a policy.
#[derive(Clone, Debug, PartialEq, Eq)]
pub struct PolicyMetadata {
    pub name: String,
    pub scope: PolicyScope,
    pub precedence: u8,
    pub trigger: PolicyTriggerMetadata,
}

/// What a [`PolicyMetadata`] stands for.
#[verifier::ext_equal]
pub struct PolicyMetadataView {
    pub name: Seq<char>,
    pub scope: PolicyScope,
    pub precedence: u8,
    pub trigger: PolicyTriggerMetadata,
}

impl View for PolicyMetadata {
    type V = PolicyMetadataView;

    open spec fn view(&self) -> PolicyMetadataView {
        PolicyMetadataView {
            name: self.name@,
            scope: self.scope,
            precedence: self.precedence,
            trigger: self.trigger,
        }
    }
}

/// Why a policy cannot be installed or removed.
#[derive(Debug, PartialEq, Eq)]
pub enum PolicyError {
    EmptyName,
    EmptyContent,
    DuplicatePrecedence { precedence: u8, existing: String },
    NotFound,
}

impl PolicyError {
    /// The error as text.
    pub fn message(&self) -> (r: String)
        ensures
            r@ == match *self {
                PolicyError::EmptyName => "prompt policy name is empty"@,
                PolicyError::EmptyContent => "prompt policy content is empty"@,
                PolicyError::DuplicatePrecedence { precedence, existing } => {
                    "prompt policy precedence "@ + decimal(precedence as nat)
                        + " is already used by policy "@ + existing@
                },
                PolicyError::NotFound => "prompt policy not found"@,
            },
    {
        match self {
            PolicyError::EmptyName => "prompt policy name is empty".to_owned(),
            PolicyError::EmptyContent => "prompt policy content is empty".to_owned(),
            PolicyError::DuplicatePrecedence { precedence, existing } => {
                let mut text: String = "prompt policy precedence ".to_owned();
                text.append(decimal_text(*precedence as u128).as_str());
                text.append(" is already used by policy ");
                text.append(existing.as_str());
                text
            },
            PolicyError::NotFound => "prompt policy not found".to_owned(),
        }
    }
}

/// An installed policy.
pub struct PolicyEntry {
    pub id: PolicyId,
    pub policy: PromptPolicy,
}

/// A policy that goes into a request.
#[derive(Clone, Debug, PartialEq, Eq)]
pub struct AppliedPromptPolicy {
    pub id: PolicyId,
    pub name: String,
    pub content: String,
    pub precedence: u8,
}

/// What an [`AppliedPromptPolicy`] stands for.
#[verifier::ext_equal]
pub struct AppliedPolicyView {
    pub id: PolicyId,
    pub name: Seq<char>,
    pub content: Seq<char>,
    pub precedence: u8,
}

impl View for AppliedPromptPolicy {
    type V = AppliedPolicyView;

    open spec fn view(&self) -> AppliedPolicyView {
        AppliedPolicyView {
            id: self.id,
            name: self.name@,
            content: self.content@,
            precedence: self.precedence,
        }
    }
}

/// The shape of a policy's trigger.
pub open spec fn trigger_shape(trigger: PolicyTrigger) -> PolicyTriggerMetadata {
    match trigger {
        PolicyTrigger::Always => PolicyTriggerMetadata::Always,
        PolicyTrigger::OnIntentMatch(_) => PolicyTriggerMetadata::IntentMatcher,
    }
}

/// What a listing tells of an installed policy.
pub open spec fn metadata_of(entry: PolicyEntry) -> (PolicyId, PolicyMetadataView) {
    (
        entry.id,
        PolicyMetadataView {
            name: entry.policy.name@,
            scope: entry.policy.scope,
            precedence: entry.policy.precedence,
            trigger: trigger_shape(entry.policy.trigger),
        },
    )
}

/// An installed policy as it goes into a request.
pub open spec fn applied_of(entry: PolicyEntry) -> AppliedPolicyView {
    AppliedPolicyView {
        id: entry.id,
        name: entry.policy.name@,
        content: entry.policy.content@,
        precedence: entry.policy.precedence,
    }
}

/// The installed policies, in the order of their installation.
pub struct PromptPolicySet {
    next_id: u64,
    policies: Vec<PolicyEntry>,
}

/// What a [`PromptPolicySet`] stands for.
#[verifier::ext_equal]
pub struct PolicySetView {
    pub next_id: u64,
    pub policies: Seq<PolicyEntry>,
}

impl View for PromptPolicySet {
    type V = PolicySetView;

    closed spec fn view(&self) -> PolicySetView {
        PolicySetView { next_id: self.next_id, policies: self.policies@ }
    }
}

impl PolicySetView {
    /// Identifiers are older than the next one; no two policies have the same
    /// identifier or the same precedence; names and contents are not blank.
    pub open spec fn wf(self) -> bool {
        &&& forall|i: int|
            0 <= i < self.policies.len() ==> (#[trigger] self.policies[i]).id.number()
                < self.next_id
        &&& forall|i: int, j: int|
            0 <= i < j < self.policies.len() ==> (#[trigger] self.policies[i]).id != (
            #[trigger] self.policies[j]).id && self.policies[i].policy.precedence
                != self.policies[j].policy.precedence
        &&& forall|i: int|
            0 <= i < self.policies.len() ==> !blank((#[trigger] self.policies[i]).policy.name@)
                && !blank(self.policies[i].policy.content@)
    }
}

/// The position of the policy that fits a test, the first where several do.
pub open spec fn position_where(
    policies: Seq<PolicyEntry>,
    fits: spec_fn(PolicyEntry) -> bool,
) -> Option<int>
    decreases policies.len(),
{
    if policies.len() == 0 {
        None
    } else {
        match position_where(policies.drop_last(), fits) {
            Some(i) => Some(i),
            None => if fits(policies.last()) {
                Some(policies.len() - 1)
            } else {
                None
            },
        }
    }
}

/// The position of the policy with an identifier.
pub open spec fn position_of(policies: Seq<PolicyEntry>, id: PolicyId) -> Option<int> {
    position_where(policies, |entry: PolicyEntry| entry.id == id)
}

/// The position of the policy with a precedence.
pub open spec fn position_at(policies: Seq<PolicyEntry>, precedence: u8) -> Option<int> {
    position_where(policies, |entry: PolicyEntry| entry.policy.precedence == precedence)
}

/// The first position that fits is found.
pub proof fn position_where_first(
    policies: Seq<PolicyEntry>,
    fits: spec_fn(PolicyEntry) -> bool,
    at: int,
)
    requires
        0 <= at <= policies.len(),
        forall|k: int| 0 <= k < at ==> !fits(#[trigger] policies[k]),
        at < policies.len() ==> fits(policies[at]),
    ensures
        position_where(policies, fits) == if at < policies.len() {
            Some(at)
        } else {
            None
        },
    decreases policies.len(),
{
    if policies.len() > 0 {
        let rest = policies.drop_last();
        assert forall|k: int| 0 <= k < rest.len() implies #[trigger] policies[k] == rest[k] by {}
        if at == policies.len() {
            assert(!fits(policies[policies.len() - 1]));
            position_where_first(rest, fits, at - 1);
        } else if at == policies.len() - 1 {
            position_where_first(rest, fits, at);
        } else {
            position_where_first(rest, fits, at);
        }
    }
}

/// Whether installing a policy must fail, and how: a blank name first, then a
/// blank content, then a precedence that is taken.
pub open spec fn refusal(policies: Seq<PolicyEntry>, policy: PromptPolicy) -> bool {
    blank(policy.name@) || blank(policy.content@) || position_at(policies, policy.precedence)
        is Some
}

/// Whether a policy is refused, and with which error: a blank name first, then
/// blank content, then a precedence that is taken.
pub open spec fn refused_with(
    policies: Seq<PolicyEntry>,
    policy: PromptPolicy,
    error: PolicyError,
) -> bool {
    refusal(policies, policy) && match error {
        PolicyError::EmptyName => blank(policy.name@),
        PolicyError::EmptyContent => !blank(policy.name@) && blank(policy.content@),
        PolicyError::DuplicatePrecedence { precedence, existing } => !blank(policy.name@) && !blank(
            policy.content@,
        ) && precedence == policy.precedence && existing@ == policies[position_at(
            policies,
            precedence,
        )->0].policy.name@,
        PolicyError::NotFound => false,
    }
}

/// Whether a policy survives a request that the given policies went into:
/// all do but a matched one that was for the next turn.
pub open spec fn survives(entry: PolicyEntry, matched: Seq<PolicyId>) -> bool {
    !(matched.contains(entry.id) && entry.policy.scope == PolicyScope::NextTurn)
}

/// The policies that survive a request, in order.
pub open spec fn survivors(policies: Seq<PolicyEntry>, matched: Seq<PolicyId>) -> Seq<PolicyEntry>
    decreases policies.len(),
{
    if policies.len() == 0 {
        Seq::empty()
    } else {
        let before = survivors(policies.drop_last(), matched);
        if survives(policies.last(), matched) {
            before.push(policies.last())
        } else {
            before
        }
    }
}

/// Items in order of strictly rising precedence, with an item put in its
/// place.
pub open spec fn placed<T>(
    sorted: Seq<T>,
    item: T,
    precedence: spec_fn(T) -> u8,
) -> Seq<T>
    decreases sorted.len(),
{
    if sorted.len() == 0 {
        seq![item]
    } else if precedence(sorted.last()) <= precedence(item) {
        sorted.push(item)
    } else {
        placed(sorted.drop_last(), item, precedence).push(sorted.last())
    }
}

/// The precedence of a listed policy.
pub open spec fn listed_precedence() -> spec_fn((PolicyId, PolicyMetadataView)) -> u8 {
    |item: (PolicyId, PolicyMetadataView)| item.1.precedence
}

/// The precedence of an applied policy.
pub open spec fn applied_precedence() -> spec_fn(AppliedPolicyView) -> u8 {
    |item: AppliedPolicyView| item.precedence
}

/// The listing of the policies, by rising precedence.
pub open spec fn listing(policies: Seq<PolicyEntry>) -> Seq<(PolicyId, PolicyMetadataView)>
    decreases policies.len(),
{
    if policies.len() == 0 {
        Seq::empty()
    } else {
        placed(listing(policies.drop_last()), metadata_of(policies.last()), listed_precedence())
    }
}

/// The matched policies as they go into a request, by rising precedence.
pub open spec fn applied(policies: Seq<PolicyEntry>, matched: Seq<PolicyId>) -> Seq<
    AppliedPolicyView,
>
    decreases policies.len(),
{
    if policies.len() == 0 {
        Seq::empty()
    } else {
        let before = applied(policies.drop_last(), matched);
        if matched.contains(policies.last().id) {
            placed(before, applied_of(policies.last()), applied_precedence())
        } else {
            before
        }
    }
}

/// The views of a listing.
pub open spec fn listing_view(items: Seq<(PolicyId, PolicyMetadata)>) -> Seq<
    (PolicyId, PolicyMetadataView),
> {
    Seq::new(items.len(), |i: int| (items[i].0, items[i].1@))
}

proof fn placed_at<T>(sorted: Seq<T>, item: T, precedence: spec_fn(T) -> u8, at: int)
    requires
        0 <= at <= sorted.len(),
        forall|k: int| at <= k < sorted.len() ==> precedence(#[trigger] sorted[k]) > precedence(
            item,
        ),
        at > 0 ==> precedence(sorted[at - 1]) <= precedence(item),
    ensures
        placed(sorted, item, precedence) == sorted.insert(at, item),
    decreases sorted.len(),
{
    if sorted.len() == 0 {
        assert(sorted.insert(at, item) =~= seq![item]);
    } else if at == sorted.len() {
        assert(sorted.insert(at, item) =~= sorted.push(item));
    } else {
        let rest = sorted.drop_last();
        assert forall|k: int| at <= k < rest.len() implies precedence(#[trigger] rest[k])
            > precedence(item) by {
            assert(rest[k] == sorted[k]);
        }
        placed_at(rest, item, precedence, at);
        assert(precedence(sorted[sorted.len() - 1]) > precedence(item));
        assert(sorted.insert(at, item) =~= rest.insert(at, item).push(sorted.last()));
    }
}

/// Putting an item in its place among items of strictly rising precedence
/// that has none of theirs keeps the precedence strictly rising, and adds
/// that item alone.
pub proof fn placed_rises<T>(sorted: Seq<T>, item: T, precedence: spec_fn(T) -> u8)
    requires
        rising(sorted, precedence),
        forall|k: int|
            0 <= k < sorted.len() ==> precedence(#[trigger] sorted[k]) != precedence(item),
    ensures
        rising(placed(sorted, item, precedence), precedence),
        placed(sorted, item, precedence).to_multiset() == sorted.to_multiset().insert(item),
        placed(sorted, item, precedence).len() == sorted.len() + 1,
        forall|x: T|
            #[trigger] placed(sorted, item, precedence).contains(x) <==> sorted.contains(x) || x
                == item,
    decreases sorted.len(),
{
    broadcast use vstd::seq_lib::group_to_multiset_ensures;

    let out = placed(sorted, item, precedence);
    if sorted.len() == 0 {
        assert(out =~= sorted.push(item));
        assert(out[0] == item);
    } else if precedence(sorted.last()) <= precedence(item) {
        assert(precedence(sorted[sorted.len() - 1]) != precedence(item));
        assert forall|x: T| #[trigger] out.contains(x) <==> sorted.contains(x) || x == item by {
            if sorted.contains(x) {
                let i = choose|i: int| 0 <= i < sorted.len() && sorted[i] == x;
                assert(out[i] == x);
            }
            if x == item {
                assert(out[sorted.len() as int] == x);
            }
        }
    } else {
        let rest = sorted.drop_last();
        assert forall|k: int| 0 <= k < rest.len() implies precedence(#[trigger] rest[k])
            != precedence(item) by {
            assert(rest[k] == sorted[k]);
        }
        placed_rises(rest, item, precedence);
        let inner = placed(rest, item, precedence);
        assert(sorted =~= rest.push(sorted.last()));
        assert(out.to_multiset() == inner.to_multiset().insert(sorted.last()));
        assert(sorted.to_multiset() == rest.to_multiset().insert(sorted.last()));
        assert(out.to_multiset() =~= sorted.to_multiset().insert(item));
        assert forall|i: int| 0 <= i < inner.len() implies precedence(#[trigger] inner[i])
            < precedence(sorted.last()) by {
            assert(inner.contains(inner[i]));
            if inner[i] != item {
                assert(rest.contains(inner[i]));
                let k = choose|k: int| 0 <= k < rest.len() && rest[k] == inner[i];
                assert(sorted[k] == inner[i]);
            }
        }
        assert forall|x: T| #[trigger] out.contains(x) <==> sorted.contains(x) || x == item by {
            if out.contains(x) {
                let i = choose|i: int| 0 <= i < out.len() && out[i] == x;
                if i < inner.len() {
                    assert(inner.contains(x));
                    if x != item {
                        assert(rest.contains(x));
                        let k = choose|k: int| 0 <= k < rest.len() && rest[k] == x;
                        assert(sorted[k] == x);
                    }
                } else {
                    assert(sorted[sorted.len() - 1] == x);
                }
            }
            if sorted.contains(x) || x == item {
                if x == item || rest.contains(x) {
                    assert(inner.contains(x));
                    let i = choose|i: int| 0 <= i < inner.len() && inner[i] == x;
                    assert(out[i] == x);
                } else {
                    let k = choose|k: int| 0 <= k < sorted.len() && sorted[k] == x;
                    if k < rest.len() {
                        assert(rest[k] == x);
                        assert(rest.contains(x));
                    }
                    assert(out[inner.len() as int] == x);
                }
            }
        }
    }
}

/// Whether precedence rises strictly along a sequence.
pub open spec fn rising<T>(items: Seq<T>, precedence: spec_fn(T) -> u8) -> bool {
    forall|i: int, j: int|
        0 <= i < j < items.len() ==> precedence(#[trigger] items[i]) < precedence(
            #[trigger] items[j],
        )
}

/// Dropping the last of several policies keeps a set in order.
proof fn wf_drop_last(set: PolicySetView)
    requires
        set.wf(),
        set.policies.len() > 0,
    ensures
        (PolicySetView { policies: set.policies.drop_last(), ..set }).wf(),
{
    let rest = set.policies.drop_last();
    assert forall|i: int| 0 <= i < rest.len() implies #[trigger] rest[i] == set.policies[i] by {}
}

/// A request leaves exactly the policies that survive it, in order, and
/// leaves the set in order: of the matched policies those for the next turn
/// are gone, and nothing else is.
pub proof fn survivors_are_kept(set: PolicySetView, matched: Seq<PolicyId>)
    requires
        set.wf(),
    ensures
        (PolicySetView { policies: survivors(set.policies, matched), ..set }).wf(),
        forall|entry: PolicyEntry|
            #[trigger] survivors(set.policies, matched).contains(entry) <==> set.policies.contains(
                entry,
            ) && survives(entry, matched),
    decreases set.policies.len(),
{
    let all = set.policies;
    let out = survivors(all, matched);
    if all.len() > 0 {
        let rest = PolicySetView { policies: all.drop_last(), ..set };
        wf_drop_last(set);
        survivors_are_kept(rest, matched);
        let before = survivors(rest.policies, matched);
        let last = all.last();
        assert forall|i: int| 0 <= i < before.len() implies (#[trigger] before[i]).id != last.id
            && before[i].policy.precedence != last.policy.precedence by {
            assert(before.contains(before[i]));
            let k = choose|k: int| 0 <= k < rest.policies.len() && rest.policies[k] == before[i];
            assert(all[k] == before[i]);
            assert(all[all.len() - 1] == last);
        }
        assert forall|entry: PolicyEntry| #[trigger] out.contains(entry) <==> all.contains(entry)
            && survives(entry, matched) by {
            if out.contains(entry) {
                let i = choose|i: int| 0 <= i < out.len() && out[i] == entry;
                if i < before.len() {
                    assert(before.contains(entry));
                    let k = choose|k: int|
                        0 <= k < rest.policies.len() && rest.policies[k] == entry;
                    assert(all[k] == entry);
                } else {
                    assert(all[all.len() - 1] == entry);
                }
            }
            if all.contains(entry) && survives(entry, matched) {
                let k = choose|k: int| 0 <= k < all.len() && all[k] == entry;
                if k < rest.policies.len() {
                    assert(rest.policies[k] == entry);
                    assert(before.contains(entry));
                    let i = choose|i: int| 0 <= i < before.len() && before[i] == entry;
                    assert(out[i] == entry);
                } else {
                    assert(out[out.len() - 1] == entry);
                }
            }
        }
    }
}

/// A listing holds every policy once, by strictly rising precedence.
pub proof fn listing_rises(set: PolicySetView)
    requires
        set.wf(),
    ensures
        rising(listing(set.policies), listed_precedence()),
        listing(set.policies).len() == set.policies.len(),
        forall|item: (PolicyId, PolicyMetadataView)|
            #[trigger] listing(set.policies).contains(item) <==> exists|k: int|
                0 <= k < set.policies.len() && metadata_of(#[trigger] set.policies[k]) == item,
    decreases set.policies.len(),
{
    let all = set.policies;
    let out = listing(all);
    if all.len() > 0 {
        let rest = PolicySetView { policies: all.drop_last(), ..set };
        wf_drop_last(set);
        listing_rises(rest);
        let before = listing(rest.policies);
        let item = metadata_of(all.last());
        assert forall|i: int| 0 <= i < before.len() implies listed_precedence()(
            #[trigger] before[i],
        ) != listed_precedence()(item) by {
            assert(before.contains(before[i]));
            let k = choose|k: int|
                0 <= k < rest.policies.len() && metadata_of(#[trigger] rest.policies[k])
                    == before[i];
            assert(all[k] == rest.policies[k]);
            assert(all[all.len() - 1] == all.last());
        }
        placed_rises(before, item, listed_precedence());
        assert forall|x: (PolicyId, PolicyMetadataView)| #[trigger]
            out.contains(x) <==> exists|k: int|
            0 <= k < all.len() && metadata_of(#[trigger] all[k]) == x by {
            if out.contains(x) {
                if before.contains(x) {
                    let k = choose|k: int|
                        0 <= k < rest.policies.len() && metadata_of(#[trigger] rest.policies[k])
                            == x;
                    assert(metadata_of(all[k]) == x);
                } else {
                    assert(metadata_of(all[all.len() - 1]) == x);
                }
            }
            if exists|k: int| 0 <= k < all.len() && metadata_of(#[trigger] all[k]) == x {
                let k = choose|k: int| 0 <= k < all.len() && metadata_of(#[trigger] all[k]) == x;
                if k < rest.policies.len() {
                    assert(metadata_of(rest.policies[k]) == x);
                    assert(before.contains(x));
                }
            }
        }
    }
}

/// What goes into a request is every matched policy once, by strictly rising
/// precedence.
pub proof fn applied_rises(set: PolicySetView, matched: Seq<PolicyId>)
    requires
        set.wf(),
    ensures
        rising(applied(set.policies, matched), applied_precedence()),
        forall|item: AppliedPolicyView|
            #[trigger] applied(set.policies, matched).contains(item) <==> exists|k: int|
                0 <= k < set.policies.len() && matched.contains(set.policies[k].id) && applied_of(
                    #[trigger] set.policies[k],
                ) == item,
    decreases set.policies.len(),
{
    let all = set.policies;
    let out = applied(all, matched);
    if all.len() > 0 {
        let rest = PolicySetView { policies: all.drop_last(), ..set };
        wf_drop_last(set);
        applied_rises(rest, matched);
        let before = applied(rest.policies, matched);
        let item = applied_of(all.last());
        if matched.contains(all.last().id) {
            assert forall|i: int| 0 <= i < before.len() implies applied_precedence()(
                #[trigger] before[i],
            ) != applied_precedence()(item) by {
                assert(before.contains(before[i]));
                let k = choose|k: int|
                    0 <= k < rest.policies.len() && matched.contains(rest.policies[k].id)
                        && applied_of(#[trigger] rest.policies[k]) == before[i];
                assert(all[k] == rest.policies[k]);
                assert(all[all.len() - 1] == all.last());
            }
            placed_rises(before, item, applied_precedence());
        }
        assert forall|x: AppliedPolicyView| #[trigger] out.contains(x) <==> exists|k: int|
            0 <= k < all.len() && matched.contains(all[k].id) && applied_of(#[trigger] all[k])
                == x by {
            if out.contains(x) {
                if before.contains(x) {
                    let k = choose|k: int|
                        0 <= k < rest.policies.len() && matched.contains(rest.policies[k].id)
                            && applied_of(#[trigger] rest.policies[k]) == x;
                    assert(applied_of(all[k]) == x);
                } else {
                    assert(applied_of(all[all.len() - 1]) == x);
                }
            }
            if exists|k: int|
                0 <= k < all.len() && matched.contains(all[k].id) && applied_of(
                    #[trigger] all[k],
                ) == x {
                let k = choose|k: int|
                    0 <= k < all.len() && matched.contains(all[k].id) && applied_of(
                        #[trigger] all[k],
                    ) == x;
                if k < rest.policies.len() {
                    assert(applied_of(rest.policies[k]) == x);
                    assert(before.contains(x));
                }
            }
        }
    }
}

fn clone_metadata(entry: &PolicyEntry) -> (r: (PolicyId, PolicyMetadata))
    ensures
        (r.0, r.1@) == metadata_of(*entry),
{
    (
        entry.id,
        PolicyMetadata {
            name: entry.policy.name.clone(),
            scope: entry.policy.scope,
            precedence: entry.policy.precedence,
            trigger: match entry.policy.trigger {
                PolicyTrigger::Always => PolicyTriggerMetadata::Always,
                PolicyTrigger::OnIntentMatch(_) => PolicyTriggerMetadata::IntentMatcher,
            },
        },
    )
}

fn contains_id(ids: &Vec<PolicyId>, id: PolicyId) -> (r: bool)
    ensures
        r == ids@.contains(id),
{
    let mut i: usize = 0;
    while i < ids.len()
        invariant
            i <= ids.len(),
            forall|k: int| 0 <= k < i ==> #[trigger] ids@[k] != id,
        decreases ids.len() - i,
    {
        if ids[i] == id {
            assert(ids@[i as int] == id);
            return true;
        }
        i = i + 1;
    }
    false
}

impl PromptPolicySet {
    #[verifier::type_invariant]
    closed spec fn inv(&self) -> bool {
        self@.wf()
    }

    /// No policies.
    pub fn new() -> (r: PromptPolicySet)
        ensures
            r@ == (PolicySetView { next_id: 0, policies: Seq::empty() }),
            r@.wf(),
    {
        let r: PromptPolicySet = PromptPolicySet { next_id: 0, policies: Vec::new() };
        assert(r@.policies =~= Seq::empty());
        r
    }

    /// Whether there is an identifier left for one more policy.
    pub fn has_room(&self) -> (r: bool)
        ensures
            r == (self@.next_id < u64::MAX),
    {
        self.next_id < u64::MAX
    }

    /// Installs a policy. Its name and its content must not be blank, and its
    /// precedence must be free.
    pub fn install(&mut self, policy: PromptPolicy) -> (r: Result<PolicyId, PolicyError>)
        requires
            old(self)@.next_id < u64::MAX,
        ensures
            final(self)@.wf(),
            match r {
                Ok(id) => !refusal(old(self)@.policies, policy) && id.number()
                    == old(self)@.next_id && final(self)@ == (PolicySetView {
                    next_id: (old(self)@.next_id + 1) as u64,
                    policies: old(self)@.policies.push(PolicyEntry { id, policy }),
                }),
                Err(error) => refused_with(old(self)@.policies, policy, error) && final(self)@
                    == old(self)@,
            },
    {
        proof {
            use_type_invariant(&*self);
        }
        if is_blank(policy.name.as_str()) {
            return Err(PolicyError::EmptyName);
        }
        if is_blank(policy.content.as_str()) {
            return Err(PolicyError::EmptyContent);
        }
        let ghost fits = |entry: PolicyEntry| entry.policy.precedence == policy.precedence;
        let mut i: usize = 0;
        while i < self.policies.len()
            invariant
                i <= self.policies.len(),
                *self == *old(self),
                old(self)@.wf(),
                !blank(policy.name@),
                !blank(policy.content@),
                fits == |entry: PolicyEntry| entry.policy.precedence == policy.precedence,
                forall|k: int| 0 <= k < i ==> !fits(#[trigger] self@.policies[k]),
            decreases self.policies.len() - i,
        {
            if self.policies[i].policy.precedence == policy.precedence {
                proof {
                    position_where_first(self@.policies, fits, i as int);
                }
                return Err(
                    PolicyError::DuplicatePrecedence {
                        precedence: policy.precedence,
                        existing: self.policies[i].policy.name.clone(),
                    },
                );
            }
            i = i + 1;
        }
        proof {
            position_where_first(self@.policies, fits, i as int);
            assert forall|k: int| 0 <= k < self@.policies.len() implies (
            #[trigger] self@.policies[k]).policy.precedence != policy.precedence by {
                assert(!fits(self@.policies[k]));
            }
        }
        let id: PolicyId = PolicyId(self.next_id);
        self.next_id = self.next_id + 1;
        let mut policies: Vec<PolicyEntry> = Vec::new();
        std::mem::swap(&mut policies, &mut self.policies);
        policies.push(PolicyEntry { id, policy });
        self.policies = policies;
        Ok(id)
    }

    /// The name of a policy.
    pub fn name_of(&self, id: PolicyId) -> (r: Option<String>)
        ensures
            optional_text(r) == match position_of(self@.policies, id) {
                Some(i) => Some(self@.policies[i].policy.name@),
                None => None,
            },
    {
        let ghost fits = |entry: PolicyEntry| entry.id == id;
        let mut i: usize = 0;
        while i < self.policies.len()
            invariant
                i <= self.policies.len(),
                fits == |entry: PolicyEntry| entry.id == id,
                forall|k: int| 0 <= k < i ==> !fits(#[trigger] self@.policies[k]),
            decreases self.policies.len() - i,
        {
            if self.policies[i].id == id {
                proof {
                    position_where_first(self@.policies, fits, i as int);
                }
                return Some(self.policies[i].policy.name.clone());
            }
            i = i + 1;
        }
        proof {
            position_where_first(self@.policies, fits, i as int);
        }
        None
    }

    /// Removes a policy.
    pub fn remove(&mut self, id: PolicyId) -> (r: Result<(), PolicyError>)
        ensures
            final(self)@.wf(),
            match position_of(old(self)@.policies, id) {
                Some(i) => r is Ok && final(self)@ == (PolicySetView {
                    policies: old(self)@.policies.remove(i),
                    ..old(self)@
                }),
                None => r == Err::<(), PolicyError>(PolicyError::NotFound) && final(self)@
                    == old(self)@,
            },
    {
        proof {
            use_type_invariant(&*self);
        }
        let ghost fits = |entry: PolicyEntry| entry.id == id;
        let mut i: usize = 0;
        while i < self.policies.len()
            invariant
                i <= self.policies.len(),
                *self == *old(self),
                old(self)@.wf(),
                fits == |entry: PolicyEntry| entry.id == id,
                forall|k: int| 0 <= k < i ==> !fits(#[trigger] self@.policies[k]),
            decreases self.policies.len() - i,
        {
            if self.policies[i].id == id {
                proof {
                    position_where_first(self@.policies, fits, i as int);
                }
                let mut policies: Vec<PolicyEntry> = Vec::new();
                std::mem::swap(&mut policies, &mut self.policies);
                let _removed: PolicyEntry = policies.remove(i);
                self.policies = policies;
                return Ok(());
            }
            i = i + 1;
        }
        proof {
            position_where_first(self@.policies, fits, i as int);
        }
        Err(PolicyError::NotFound)
    }

    /// Lists the policies by rising precedence.
    pub fn list(&self) -> (r: Vec<(PolicyId, PolicyMetadata)>)
        ensures
            listing_view(r@) == listing(self@.policies),
    {
        let ghost all = self@.policies;
        let mut out: Vec<(PolicyId, PolicyMetadata)> = Vec::new();
        let mut i: usize = 0;
        assert(listing_view(out@) =~= listing(all.take(0)));
        while i < self.policies.len()
            invariant
                i <= self.policies.len(),
                all == self.policies@,
                listing_view(out@) == listing(all.take(i as int)),
            decreases self.policies.len() - i,
        {
            assert(all.take(i + 1).drop_last() =~= all.take(i as int));
            let ghost before = listing_view(out@);
            let item: (PolicyId, PolicyMetadata) = clone_metadata(&self.policies[i]);
            let ghost item_v = (item.0, item.1@);
            let mut at: usize = out.len();
            while 0 < at && out[at - 1].1.precedence > item.1.precedence
                invariant
                    at <= out.len(),
                    before == listing_view(out@),
                    item_v == (item.0, item.1@),
                    forall|k: int|
                        at <= k < before.len() ==> listed_precedence()(#[trigger] before[k])
                            > listed_precedence()(item_v),
                decreases at,
            {
                assert(before[at - 1].1.precedence == out@[at - 1].1.precedence);
                at = at - 1;
            }
            proof {
                if at > 0 {
                    assert(before[at - 1].1.precedence == out@[at - 1].1.precedence);
                }
                placed_at(before, item_v, listed_precedence(), at as int);
            }
            out.insert(at, item);
            assert(listing_view(out@) =~= before.insert(at as int, item_v));
            i = i + 1;
        }
        assert(all.take(i as int) =~= all);
        out
    }

    /// The policies to ask before a request: those with a matcher carry it.
    pub fn candidates(&self) -> (r: Vec<PromptPolicyCandidate>)
        ensures
            r@.len() == self@.policies.len(),
            forall|i: int|
                0 <= i < r@.len() ==> (#[trigger] r@[i]).id == self@.policies[i].id
                    && r@[i].trigger == self@.policies[i].policy.trigger,
    {
        let mut out: Vec<PromptPolicyCandidate> = Vec::new();
        let mut i: usize = 0;
        while i < self.policies.len()
            invariant
                i <= self.policies.len(),
                out.len() == i,
                forall|k: int|
                    0 <= k < i ==> (#[trigger] out@[k]).id == self@.policies[k].id
                        && out@[k].trigger == self@.policies[k].policy.trigger,
            decreases self.policies.len() - i,
        {
            let trigger: PolicyTrigger = match &self.policies[i].policy.trigger {
                PolicyTrigger::Always => PolicyTrigger::Always,
                PolicyTrigger::OnIntentMatch(matcher) => PolicyTrigger::OnIntentMatch(
                    matcher.clone(),
                ),
            };
            out.push(PromptPolicyCandidate { id: self.policies[i].id, trigger });
            i = i + 1;
        }
        out
    }

    /// Takes which policies matched: those go into the request, by rising
    /// precedence, and the ones among them that were for the next turn only
    /// are removed.
    pub fn apply_matches(&mut self, matched: &Vec<PolicyId>) -> (r: Vec<AppliedPromptPolicy>)
        ensures
            final(self)@.wf(),
            final(self)@ == (PolicySetView {
                policies: survivors(old(self)@.policies, matched@),
                ..old(self)@
            }),
            views(r@) == applied(old(self)@.policies, matched@),
    {
        proof {
            use_type_invariant(&*self);
        }
        let ghost all = self@.policies;
        let mut out: Vec<AppliedPromptPolicy> = Vec::new();
        let mut kept: Vec<PolicyEntry> = Vec::new();
        let mut given: Vec<PolicyEntry> = Vec::new();
        std::mem::swap(&mut given, &mut self.policies);
        assert(views(out@) =~= applied(all.take(0), matched@));
        assert(kept@ =~= survivors(all.take(0), matched@));
        for entry in it: given
            invariant
                it.seq() == all,
                kept@ == survivors(all.take(it.index() as int), matched@),
                views(out@) == applied(all.take(it.index() as int), matched@),
        {
            let ghost i = it.index() as int;
            proof {
                assert(all[i] == entry);
                assert(all.take(i + 1).drop_last() =~= all.take(i));
            }
            let is_match: bool = contains_id(matched, entry.id);
            if is_match {
                let ghost before = views(out@);
                let item: AppliedPromptPolicy = AppliedPromptPolicy {
                    id: entry.id,
                    name: entry.policy.name.clone(),
                    content: entry.policy.content.clone(),
                    precedence: entry.policy.precedence,
                };
                let mut at: usize = out.len();
                while 0 < at && out[at - 1].precedence > item.precedence
                    invariant
                        at <= out.len(),
                        before == views(out@),
                        forall|k: int|
                            at <= k < before.len() ==> applied_precedence()(#[trigger] before[k])
                                > applied_precedence()(item@),
                    decreases at,
                {
                    assert(before[at - 1].precedence == out@[at - 1].precedence);
                    at = at - 1;
                }
                proof {
                    if at > 0 {
                        assert(before[at - 1].precedence == out@[at - 1].precedence);
                    }
                    placed_at(before, item@, applied_precedence(), at as int);
                }
                out.insert(at, item);
                assert(views(out@) =~= before.insert(at as int, item@));
            }
            let drops: bool = is_match && entry.policy.scope == PolicyScope::NextTurn;
            if !drops {
                kept.push(entry);
            }
        }
        assert(all.take(all.len() as int) =~= all);
        proof {
            survivors_are_kept(PolicySetView { next_id: self.next_id, policies: all }, matched@);
        }
        self.policies = kept;
        out
    }
}

/// A policy that is to be asked whether it applies.
pub struct PromptPolicyCandidate {
    pub id: PolicyId,
    pub trigger: PolicyTrigger,
}

/// Whether a policy with a trigger applies, given what came of asking its
/// matcher.
pub open spec fn policy_applies(trigger: PolicyTrigger, asked: Option<bool>) -> bool {
    match trigger {
        PolicyTrigger::Always => true,
        PolicyTrigger::OnIntentMatch(_) => asked == Some(true),
    }
}

/// A policy without a matcher always applies; one with a matcher applies exactly
/// where the matcher was asked, did not panic, and said so.
pub proof fn policies_apply_when_they_match(trigger: PolicyTrigger)
    ensures
        trigger is Always ==> policy_applies(trigger, None) && policy_applies(trigger, Some(false))
            && policy_applies(trigger, Some(true)),
        trigger is OnIntentMatch ==> !policy_applies(trigger, None) && !policy_applies(
            trigger,
            Some(false),
        ) && policy_applies(trigger, Some(true)),
{
}

impl PromptPolicyCandidate {
    /// Whether the policy applies, given what came of asking its matcher:
    /// `None` where the matcher panicked. Without a matcher it always does.
    pub fn matches(&self, asked: Option<bool>) -> (r: bool)
        ensures
            r == policy_applies(self.trigger, asked),
    {
        match &self.trigger {
            PolicyTrigger::Always => true,
            PolicyTrigger::OnIntentMatch(_) => match asked {
                Some(answer) => answer,
                None => false,
            },
        }
    }
}

/// A policy goes into a request exactly where it matched, with its own name,
/// text and precedence, and those of lower precedence go first.
pub proof fn matched_policies_go_in(set: PolicySetView, matched: Seq<PolicyId>, k: int)
    requires
        set.wf(),
        0 <= k < set.policies.len(),
    ensures
        ({
            let entry = set.policies[k];
            let items = applied(set.policies, matched);
            let item = AppliedPolicyView {
                id: entry.id,
                name: entry.policy.name@,
                content: entry.policy.content@,
                precedence: entry.policy.precedence,
            };
            &&& items.contains(item) <==> matched.contains(entry.id)
            &&& forall|i: int, j: int|
                0 <= i < j < items.len() ==> (#[trigger] items[i]).precedence < (
                #[trigger] items[j]).precedence
        }),
{
    let entry = set.policies[k];
    let items = applied(set.policies, matched);
    let item = AppliedPolicyView {
        id: entry.id,
        name: entry.policy.name@,
        content: entry.policy.content@,
        precedence: entry.policy.precedence,
    };
    applied_rises(set, matched);
    assert(applied_of(set.policies[k]) == item);
    if items.contains(item) {
        let i = choose|i: int|
            0 <= i < set.policies.len() && matched.contains(set.policies[i].id) && applied_of(
                #[trigger] set.policies[i],
            ) == item;
        assert(set.policies[i].id == entry.id);
    }
    assert forall|i: int, j: int| 0 <= i < j < items.len() implies (
    #[trigger] items[i]).precedence < (#[trigger] items[j]).precedence by {
        assert(applied_precedence()(items[i]) < applied_precedence()(items[j]));
    }
}

/// What a request holds of policies is policies that matched, and no more of
/// them than there are.
pub proof fn only_matched_policies_go_in(set: PolicySetView, matched: Seq<PolicyId>, i: int)
    requires
        set.wf(),
        0 <= i < applied(set.policies, matched).len(),
    ensures
        exists|k: int|
            {
                &&& 0 <= k < set.policies.len()
                &&& matched.contains((#[trigger] set.policies[k]).id)
                &&& applied(set.policies, matched)[i].id == set.policies[k].id
                &&& applied(set.policies, matched)[i].name == set.policies[k].policy.name@
                &&& applied(set.policies, matched)[i].content == set.policies[k].policy.content@
                &&& applied(set.policies, matched)[i].precedence
                    == set.policies[k].policy.precedence
            },
{
    applied_rises(set, matched);
    let item = applied(set.policies, matched)[i];
    assert(applied(set.policies, matched).contains(item));
    let k = choose|k: int|
        0 <= k < set.policies.len() && matched.contains(set.policies[k].id) && applied_of(
            #[trigger] set.policies[k],
        ) == item;
    assert(matched.contains(set.policies[k].id));
}

/// A policy for the next turn is used up by the request that it goes into;
/// every other policy stays until it is removed.
pub proof fn one_turn_policies_are_used_up(set: PolicySetView, matched: Seq<PolicyId>, k: int)
    requires
        set.wf(),
        0 <= k < set.policies.len(),
    ensures
        survivors(set.policies, matched).contains(set.policies[k]) <==> !(matched.contains(
            set.policies[k].id,
        ) && set.policies[k].policy.scope == PolicyScope::NextTurn),
{
    survivors_are_kept(set, matched);
    assert(set.policies.contains(set.policies[k]));
}

/// A listing tells of every policy as it is.
pub proof fn listings_tell_of_every_policy(set: PolicySetView, k: int)
    requires
        set.wf(),
        0 <= k < set.policies.len(),
    ensures
        listing(set.policies).contains(
            (
                set.policies[k].id,
                PolicyMetadataView {
                    name: set.policies[k].policy.name@,
                    scope: set.policies[k].policy.scope,
                    precedence: set.policies[k].policy.precedence,
                    trigger: match set.policies[k].policy.trigger {
                        PolicyTrigger::Always => PolicyTriggerMetadata::Always,
                        PolicyTrigger::OnIntentMatch(_) => PolicyTriggerMetadata::IntentMatcher,
                    },
                },
            ),
        ),
        listing(set.policies).len() == set.policies.len(),
        forall|i: int, j: int|
            0 <= i < j < listing(set.policies).len() ==> (#[trigger] listing(
                set.policies,
            )[i]).1.precedence < (#[trigger] listing(set.policies)[j]).1.precedence,
{
    listing_rises(set);
    let items = listing(set.policies);
    assert(items.contains(metadata_of(set.policies[k])));
    assert forall|i: int, j: int| 0 <= i < j < items.len() implies (
    #[trigger] items[i]).1.precedence < (#[trigger] items[j]).1.precedence by {
        assert(listed_precedence()(items[i]) < listed_precedence()(items[j]));
    }
}

/// A policy is refused exactly where its name or its text is blank or another
/// policy has its precedence; the error then names that policy.
pub proof fn refusals_of_policies(
    policies: Seq<PolicyEntry>,
    policy: PromptPolicy,
    error: PolicyError,
)
    ensures
        refusal(policies, policy) <==> blank(policy.name@) || blank(policy.content@) || exists|
            k: int,
        |
            0 <= k < policies.len() && (#[trigger] policies[k]).policy.precedence
                == policy.precedence,
        refused_with(policies, policy, error) ==> match error {
            PolicyError::EmptyName => blank(policy.name@),
            PolicyError::EmptyContent => !blank(policy.name@) && blank(policy.content@),
            PolicyError::DuplicatePrecedence { precedence, existing } => {
                &&& !blank(policy.name@) && !blank(policy.content@)
                &&& precedence == policy.precedence
                &&& exists|k: int|
                    0 <= k < policies.len() && (#[trigger] policies[k]).policy.precedence
                        == policy.precedence && existing@ == policies[k].policy.name@
            },
            PolicyError::NotFound => false,
        },
{
    let fits = |entry: PolicyEntry| entry.policy.precedence == policy.precedence;
    if exists|k: int|
        0 <= k < policies.len() && (#[trigger] policies[k]).policy.precedence
            == policy.precedence {
        let k = choose|k: int|
            0 <= k < policies.len() && (#[trigger] policies[k]).policy.precedence
                == policy.precedence;
        first_fit(policies, fits, k);
    } else {
        position_where_first(policies, fits, policies.len() as int);
    }
}

proof fn first_fit(policies: Seq<PolicyEntry>, fits: spec_fn(PolicyEntry) -> bool, k: int)
    requires
        0 <= k < policies.len(),
        fits(policies[k]),
    ensures
        match position_where(policies, fits) {
            Some(i) => 0 <= i <= k && fits(policies[i]),
            None => false,
        },
    decreases k,
{
    if forall|j: int| 0 <= j < k ==> !fits(#[trigger] policies[j]) {
        position_where_first(policies, fits, k);
    } else {
        let j = choose|j: int| 0 <= j < k && fits(#[trigger] policies[j]);
        first_fit(policies, fits, j);
    }
}

/// A policy is found by its identifier, and none is where no policy has it.
pub proof fn policies_are_found_by_id(policies: Seq<PolicyEntry>, id: PolicyId)
    ensures
        match position_of(policies, id) {
            Some(i) => 0 <= i < policies.len() && policies[i].id == id,
            None => forall|k: int| 0 <= k < policies.len() ==> (#[trigger] policies[k]).id != id,
        },
{
    let fits = |entry: PolicyEntry| entry.id == id;
    if exists|k: int| 0 <= k < policies.len() && (#[trigger] policies[k]).id == id {
        let k = choose|k: int| 0 <= k < policies.len() && (#[trigger] policies[k]).id == id;
        first_fit(policies, fits, k);
    } else {
        position_where_first(policies, fits, policies.len() as int);
    }
}

} // verus!
