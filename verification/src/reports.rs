//! What the consumer of a run is told of its prompt policies and its mode.
use crate::mode::ModeControl;
use crate::prompt_policy::{
    applied, position_of, refusal, refused_with, survivors, AppliedPolicyView,
    AppliedPromptPolicy, PolicyEntry, PolicyError, PolicyId, PolicySetView, PromptPolicy,
    PromptPolicySet,
};
use crate::stream::{StreamEvent, StreamEventView};
use crate::text::{views, views_push};
use vstd::prelude::*;

verus! {

/// The prompt policies of a run, with the events that wait to be reported.
pub struct ReportedPolicies {
    policies: PromptPolicySet,
    events: Vec<StreamEvent>,
}

/// What is reported of a policy that went into a request.
pub open spec fn applied_event(policy: AppliedPolicyView) -> StreamEventView {
    StreamEventView::PolicyApplied { name: policy.name, precedence: policy.precedence }
}

/// What is reported of the policies that went into a request, in their order.
pub open spec fn applied_events(policies: Seq<AppliedPolicyView>) -> Seq<StreamEventView> {
    Seq::new(policies.len(), |i: int| applied_event(policies[i]))
}

impl ReportedPolicies {
    /// The installed policies.
    pub closed spec fn policies(&self) -> PolicySetView {
        self.policies@
    }

    /// The events that wait to be reported.
    pub closed spec fn waiting(&self) -> Seq<StreamEventView> {
        views(self.events@)
    }

    /// No policies, and nothing to report.
    pub fn new() -> (r: ReportedPolicies)
        ensures
            r.policies() == (PolicySetView { next_id: 0, policies: Seq::empty() }),
            r.waiting() == Seq::<StreamEventView>::empty(),
    {
        let r: ReportedPolicies = ReportedPolicies {
            policies: PromptPolicySet::new(),
            events: Vec::new(),
        };
        assert(r.waiting() =~= Seq::empty());
        r
    }

    /// The installed policies.
    pub fn policy_set(&self) -> (r: &PromptPolicySet)
        ensures
            r@ == self.policies(),
    {
        &self.policies
    }

    /// Installs a policy, as [`PromptPolicySet::install`] does, and reports it
    /// where it was not refused.
    pub fn install(&mut self, policy: PromptPolicy) -> (r: Result<PolicyId, PolicyError>)
        requires
            old(self).policies().next_id < u64::MAX,
        ensures
            match r {
                Ok(id) => !refusal(old(self).policies().policies, policy) && id.number()
                    == old(self).policies().next_id && final(self).policies() == (PolicySetView {
                    next_id: (old(self).policies().next_id + 1) as u64,
                    policies: old(self).policies().policies.push(PolicyEntry { id, policy }),
                }) && final(self).waiting() == old(self).waiting().push(
                    StreamEventView::PolicyInstalled { name: policy.name@ },
                ),
                Err(error) => refused_with(old(self).policies().policies, policy, error)
                    && final(self).policies() == old(self).policies() && final(self).waiting()
                    == old(self).waiting(),
            },
    {
        let name: String = policy.name.clone();
        match self.policies.install(policy) {
            Ok(id) => {
                let event: StreamEvent = StreamEvent::PolicyInstalled { name };
                proof {
                    views_push(self.events@, event);
                }
                self.events.push(event);
                Ok(id)
            },
            Err(error) => Err(error),
        }
    }

    /// Removes a policy, and reports it where there was one.
    pub fn remove(&mut self, id: PolicyId) -> (r: Result<(), PolicyError>)
        ensures
            match position_of(old(self).policies().policies, id) {
                Some(i) => r is Ok && final(self).policies() == (PolicySetView {
                    policies: old(self).policies().policies.remove(i),
                    ..old(self).policies()
                }) && final(self).waiting() == old(self).waiting().push(
                    StreamEventView::PolicyRemoved {
                        name: old(self).policies().policies[i].policy.name@,
                    },
                ),
                None => r == Err::<(), PolicyError>(PolicyError::NotFound)
                    && final(self).policies() == old(self).policies() && final(self).waiting()
                    == old(self).waiting(),
            },
    {
        match self.policies.name_of(id) {
            Some(name) => {
                let removed: Result<(), PolicyError> = self.policies.remove(id);
                let event: StreamEvent = StreamEvent::PolicyRemoved { name };
                proof {
                    views_push(self.events@, event);
                }
                self.events.push(event);
                removed
            },
            None => Err(PolicyError::NotFound),
        }
    }

    /// Takes which policies matched, as [`PromptPolicySet::apply_matches`]
    /// does, and reports those that go into the request.
    pub fn apply_matches(&mut self, matched: &Vec<PolicyId>) -> (r: Vec<AppliedPromptPolicy>)
        ensures
            final(self).policies() == (PolicySetView {
                policies: survivors(old(self).policies().policies, matched@),
                ..old(self).policies()
            }),
            views(r@) == applied(old(self).policies().policies, matched@),
            final(self).waiting() == old(self).waiting() + applied_events(views(r@)),
    {
        let out: Vec<AppliedPromptPolicy> = self.policies.apply_matches(matched);
        let mut i: usize = 0;
        assert(self.waiting() =~= old(self).waiting() + applied_events(views(out@)).take(0));
        while i < out.len()
            invariant
                i <= out.len(),
                self.policies() == (PolicySetView {
                    policies: survivors(old(self).policies().policies, matched@),
                    ..old(self).policies()
                }),
                self.waiting() == old(self).waiting() + applied_events(views(out@)).take(
                    i as int,
                ),
            decreases out.len() - i,
        {
            let event: StreamEvent = StreamEvent::PolicyApplied {
                name: out[i].name.clone(),
                precedence: out[i].precedence,
            };
            proof {
                views_push(self.events@, event);
                assert(event@ == applied_events(views(out@))[i as int]);
            }
            self.events.push(event);
            assert(self.waiting() =~= old(self).waiting() + applied_events(views(out@)).take(
                i + 1,
            ));
            i = i + 1;
        }
        assert(applied_events(views(out@)).take(i as int) =~= applied_events(views(out@)));
        out
    }

    /// Takes what waits to be reported.
    pub fn take_events(&mut self) -> (r: Vec<StreamEvent>)
        ensures
            final(self).policies() == old(self).policies(),
            final(self).waiting() == Seq::<StreamEventView>::empty(),
            views(r@) == old(self).waiting(),
    {
        let mut events: Vec<StreamEvent> = Vec::new();
        std::mem::swap(&mut events, &mut self.events);
        assert(self.waiting() =~= Seq::empty());
        events
    }

    /// Passes a boundary: a waiting mode change takes its next step. What
    /// waited is reported, and behind it what became of the change.
    pub fn boundary<M>(&mut self, modes: &mut ModeControl<M>) -> (r: Vec<StreamEvent>)
        ensures
            *final(modes) == old(modes).passed(),
            final(self).policies() == old(self).policies(),
            final(self).waiting() == Seq::<StreamEventView>::empty(),
            views(r@) == match old(modes).reported() {
                Some(event) => old(self).waiting().push(event),
                None => old(self).waiting(),
            },
    {
        let mut events: Vec<StreamEvent> = self.take_events();
        if let Some(event) = modes.boundary() {
            proof {
                views_push(events@, event);
            }
            events.push(event);
        }
        events
    }
}

/// The consumer is told of every policy that went into a request, by name and
/// precedence, in the order of the request.
pub proof fn applied_policies_are_told(policies: Seq<AppliedPolicyView>)
    ensures
        applied_events(policies).len() == policies.len(),
        forall|i: int|
            0 <= i < policies.len() ==> #[trigger] applied_events(policies)[i] == (
            StreamEventView::PolicyApplied {
                name: policies[i].name,
                precedence: policies[i].precedence,
            }),
{
}

} // verus!
