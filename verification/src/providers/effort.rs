//! Reasoning effort and summary levels on the Responses wire.
use crate::provider::ThinkingEffort;
use crate::text::{equal_ignoring_case, same_ignoring_case};
use vstd::prelude::*;

verus! {

/// How hard the model thinks.
#[derive(Debug, PartialEq, Eq)]
pub enum OpenAIEffort {
    Low,
    Medium,
    High,
    /// A level that is sent as it stands.
    Other(String),
}

/// How the model sums up its reasoning.
#[derive(Debug, PartialEq, Eq)]
pub enum OpenAISummary {
    Auto,
    Concise,
    Detailed,
    /// A level that is sent as it stands.
    Other(String),
}

/// What an [`OpenAIEffort`] stands for.
#[verifier::ext_equal]
pub enum EffortView {
    Low,
    Medium,
    High,
    Other(Seq<char>),
}

/// What an [`OpenAISummary`] stands for.
#[verifier::ext_equal]
pub enum SummaryView {
    Auto,
    Concise,
    Detailed,
    Other(Seq<char>),
}

impl EffortView {
    /// What goes on the wire.
    pub open spec fn wire(self) -> Seq<char> {
        match self {
            EffortView::Low => "low"@,
            EffortView::Medium => "medium"@,
            EffortView::High => "high"@,
            EffortView::Other(name) => name,
        }
    }

    /// The effort of a name: the known levels in any case of letters,
    /// everything else as it stands.
    pub open spec fn named(name: Seq<char>) -> EffortView {
        if same_ignoring_case(name, "low"@) {
            EffortView::Low
        } else if same_ignoring_case(name, "medium"@) {
            EffortView::Medium
        } else if same_ignoring_case(name, "high"@) {
            EffortView::High
        } else {
            EffortView::Other(name)
        }
    }

    /// The effort that a call asks for by itself.
    pub open spec fn of_call(effort: ThinkingEffort) -> EffortView {
        match effort {
            ThinkingEffort::Low => EffortView::Low,
            ThinkingEffort::Medium => EffortView::Medium,
            ThinkingEffort::High => EffortView::High,
            ThinkingEffort::Other(name) => EffortView::named(name@),
        }
    }
}

impl SummaryView {
    /// What goes on the wire.
    pub open spec fn wire(self) -> Seq<char> {
        match self {
            SummaryView::Auto => "auto"@,
            SummaryView::Concise => "concise"@,
            SummaryView::Detailed => "detailed"@,
            SummaryView::Other(name) => name,
        }
    }

    /// The summary level of a name: the known levels in any case of letters,
    /// everything else as it stands.
    pub open spec fn named(name: Seq<char>) -> SummaryView {
        if same_ignoring_case(name, "auto"@) {
            SummaryView::Auto
        } else if same_ignoring_case(name, "concise"@) {
            SummaryView::Concise
        } else if same_ignoring_case(name, "detailed"@) {
            SummaryView::Detailed
        } else {
            SummaryView::Other(name)
        }
    }
}

impl View for OpenAIEffort {
    type V = EffortView;

    open spec fn view(&self) -> EffortView {
        match *self {
            OpenAIEffort::Low => EffortView::Low,
            OpenAIEffort::Medium => EffortView::Medium,
            OpenAIEffort::High => EffortView::High,
            OpenAIEffort::Other(name) => EffortView::Other(name@),
        }
    }
}

impl View for OpenAISummary {
    type V = SummaryView;

    open spec fn view(&self) -> SummaryView {
        match *self {
            OpenAISummary::Auto => SummaryView::Auto,
            OpenAISummary::Concise => SummaryView::Concise,
            OpenAISummary::Detailed => SummaryView::Detailed,
            OpenAISummary::Other(name) => SummaryView::Other(name@),
        }
    }
}

impl OpenAIEffort {
    /// The effort of the given name.
    pub fn named(name: &str) -> (r: OpenAIEffort)
        ensures
            r@ == EffortView::named(name@),
    {
        if equal_ignoring_case(name, "low") {
            OpenAIEffort::Low
        } else if equal_ignoring_case(name, "medium") {
            OpenAIEffort::Medium
        } else if equal_ignoring_case(name, "high") {
            OpenAIEffort::High
        } else {
            OpenAIEffort::Other(name.to_owned())
        }
    }

    /// What goes on the wire.
    pub fn as_wire(&self) -> (r: &str)
        ensures
            r@ == self@.wire(),
    {
        match self {
            OpenAIEffort::Low => "low",
            OpenAIEffort::Medium => "medium",
            OpenAIEffort::High => "high",
            OpenAIEffort::Other(name) => name.as_str(),
        }
    }
}

impl OpenAISummary {
    /// The summary level of the given name.
    pub fn named(name: &str) -> (r: OpenAISummary)
        ensures
            r@ == SummaryView::named(name@),
    {
        if equal_ignoring_case(name, "auto") {
            OpenAISummary::Auto
        } else if equal_ignoring_case(name, "concise") {
            OpenAISummary::Concise
        } else if equal_ignoring_case(name, "detailed") {
            OpenAISummary::Detailed
        } else {
            OpenAISummary::Other(name.to_owned())
        }
    }

    /// What goes on the wire.
    pub fn as_wire(&self) -> (r: &str)
        ensures
            r@ == self@.wire(),
    {
        match self {
            OpenAISummary::Auto => "auto",
            OpenAISummary::Concise => "concise",
            OpenAISummary::Detailed => "detailed",
            OpenAISummary::Other(name) => name.as_str(),
        }
    }
}

impl Clone for OpenAIEffort {
    fn clone(&self) -> (r: OpenAIEffort)
        ensures
            r == *self,
    {
        match self {
            OpenAIEffort::Low => OpenAIEffort::Low,
            OpenAIEffort::Medium => OpenAIEffort::Medium,
            OpenAIEffort::High => OpenAIEffort::High,
            OpenAIEffort::Other(name) => OpenAIEffort::Other(name.clone()),
        }
    }
}

impl Clone for OpenAISummary {
    fn clone(&self) -> (r: OpenAISummary)
        ensures
            r == *self,
    {
        match self {
            OpenAISummary::Auto => OpenAISummary::Auto,
            OpenAISummary::Concise => OpenAISummary::Concise,
            OpenAISummary::Detailed => OpenAISummary::Detailed,
            OpenAISummary::Other(name) => OpenAISummary::Other(name.clone()),
        }
    }
}

impl vstd::std_specs::convert::FromSpecImpl<&str> for OpenAIEffort {
    open spec fn obeys_from_spec() -> bool {
        false
    }

    open spec fn from_spec(name: &str) -> OpenAIEffort {
        arbitrary()
    }
}

impl From<&str> for OpenAIEffort {
    fn from(name: &str) -> (r: OpenAIEffort)
        ensures
            r@ == EffortView::named(name@),
    {
        OpenAIEffort::named(name)
    }
}

impl vstd::std_specs::convert::FromSpecImpl<&str> for OpenAISummary {
    open spec fn obeys_from_spec() -> bool {
        false
    }

    open spec fn from_spec(name: &str) -> OpenAISummary {
        arbitrary()
    }
}

impl From<&str> for OpenAISummary {
    fn from(name: &str) -> (r: OpenAISummary)
        ensures
            r@ == SummaryView::named(name@),
    {
        OpenAISummary::named(name)
    }
}

/// Maps a per-call effort onto this wire.
pub fn map_thinking_effort(effort: &ThinkingEffort) -> (r: OpenAIEffort)
    ensures
        r@ == EffortView::of_call(*effort),
{
    match effort {
        ThinkingEffort::Low => OpenAIEffort::Low,
        ThinkingEffort::Medium => OpenAIEffort::Medium,
        ThinkingEffort::High => OpenAIEffort::High,
        ThinkingEffort::Other(name) => OpenAIEffort::named(name.as_str()),
    }
}

/// A name means a level that is written like it, up to the case of letters; one
/// that is written like no known level goes on the wire as it stands. A call's
/// own levels go on the wire by their names.
pub proof fn levels_are_written_like_their_names(name: Seq<char>)
    ensures
        same_ignoring_case(name, EffortView::named(name).wire()),
        same_ignoring_case(name, SummaryView::named(name).wire()),
        EffortView::named(name) is Other ==> EffortView::named(name).wire() == name,
        SummaryView::named(name) is Other ==> SummaryView::named(name).wire() == name,
        same_ignoring_case(name, "low"@) ==> EffortView::named(name) is Low,
        same_ignoring_case(name, "medium"@) ==> EffortView::named(name) is Medium,
        same_ignoring_case(name, "high"@) ==> EffortView::named(name) is High,
        same_ignoring_case(name, "auto"@) ==> SummaryView::named(name) is Auto,
        same_ignoring_case(name, "concise"@) ==> SummaryView::named(name) is Concise,
        same_ignoring_case(name, "detailed"@) ==> SummaryView::named(name) is Detailed,
        EffortView::of_call(ThinkingEffort::Low).wire() == "low"@,
        EffortView::of_call(ThinkingEffort::Medium).wire() == "medium"@,
        EffortView::of_call(ThinkingEffort::High).wire() == "high"@,
{
    reveal_strlit("low");
    reveal_strlit("medium");
    reveal_strlit("high");
    reveal_strlit("auto");
    reveal_strlit("concise");
    reveal_strlit("detailed");
    assert("low"@.len() == 3);
    assert("medium"@.len() == 6);
    assert("high"@.len() == 4 && "high"@[0] == 'h');
    assert("auto"@.len() == 4);
    assert("concise"@.len() == 7);
    assert("detailed"@.len() == 8);
}

} // verus!
