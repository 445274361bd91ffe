//! Mid-task steering: turn identifiers, queued user messages, and the tools
//! in flight.
use crate::message::{Content, ContentView};
use crate::names::NameMap;
use crate::text::{decimal, decimal_injective, decimal_reads_back, decimal_text, same_text, views};
use vstd::prelude::*;
use vstd::std_specs::cmp::PartialEqSpec;
use vstd::string::*;

verus! {

/// Opaque identifier of one agent turn.
#[derive(Debug, Eq, Hash)]
pub struct TurnId(String);

impl vstd::std_specs::cmp::PartialEqSpecImpl for TurnId {
    open spec fn obeys_eq_spec() -> bool {
        true
    }

    /// Identifiers are equal exactly when their texts are.
    open spec fn eq_spec(&self, other: &TurnId) -> bool {
        self@ == other@
    }
}

impl PartialEq for TurnId {
    fn eq(&self, other: &TurnId) -> (r: bool) {
        same_text(self.0.as_str(), other.0.as_str())
    }
}

/// Two identifiers are equal exactly when their texts are: `==` on them is
/// `==` on what [`TurnId::as_str`] gives.
pub proof fn turn_ids_are_their_texts(a: TurnId, b: TurnId)
    ensures
        a.eq_spec(&b) <==> a@ == b@,
{
}

/// The text of the turn identifier made of a clock reading and a counter.
pub open spec fn turn_text(unix_ms: nat, suffix: nat) -> Seq<char> {
    "turn_"@ + decimal(unix_ms) + "_"@ + decimal(suffix)
}

impl TurnId {
    /// The identifier of a turn that starts at `unix_ms` milliseconds past
    /// the epoch, with the process's turn counter at `suffix`.
    #[must_use]
    pub fn new(unix_ms: u128, suffix: u64) -> (r: TurnId)
        ensures
            r@ == turn_text(unix_ms as nat, suffix as nat),
    {
        let mut text: String = "turn_".to_owned();
        text.append(decimal_text(unix_ms).as_str());
        text.append("_");
        text.append(decimal_text(suffix as u128).as_str());
        TurnId(text)
    }

    /// The identifier's text.
    #[must_use]
    pub fn as_str(&self) -> (r: &str)
        ensures
            r@ == self@,
    {
        self.0.as_str()
    }
}

impl View for TurnId {
    type V = Seq<char>;

    closed spec fn view(&self) -> Seq<char> {
        self.0@
    }
}

impl Clone for TurnId {
    fn clone(&self) -> (r: TurnId)
        ensures
            r@ == self@,
    {
        TurnId(self.0.clone())
    }
}

impl vstd::std_specs::convert::FromSpecImpl<String> for TurnId {
    open spec fn obeys_from_spec() -> bool {
        false
    }

    open spec fn from_spec(text: String) -> TurnId {
        arbitrary()
    }
}

impl From<String> for TurnId {
    fn from(text: String) -> (r: TurnId)
        ensures
            r@ == text@,
    {
        TurnId(text)
    }
}

impl vstd::std_specs::convert::FromSpecImpl<TurnId> for String {
    open spec fn obeys_from_spec() -> bool {
        false
    }

    open spec fn from_spec(id: TurnId) -> String {
        arbitrary()
    }
}

impl From<TurnId> for String {
    fn from(id: TurnId) -> (r: String)
        ensures
            r@ == id@,
    {
        id.0
    }
}

/// Turn identifiers made of different clock readings or different counters
/// differ.
pub proof fn turn_ids_differ(ms_a: nat, suffix_a: nat, ms_b: nat, suffix_b: nat)
    requires
        turn_text(ms_a, suffix_a) == turn_text(ms_b, suffix_b),
    ensures
        ms_a == ms_b,
        suffix_a == suffix_b,
{
    reveal_strlit("turn_");
    reveal_strlit("_");
    let a = turn_text(ms_a, suffix_a);
    let b = turn_text(ms_b, suffix_b);
    decimal_reads_back(ms_a);
    decimal_reads_back(ms_b);
    decimal_reads_back(suffix_a);
    decimal_reads_back(suffix_b);
    let la = decimal(ms_a).len() as int;
    let lb = decimal(ms_b).len() as int;
    assert("turn_"@.len() == 5);
    assert("_"@.len() == 1);
    assert(a[5 + la] == '_');
    assert(b[5 + lb] == '_');
    if la < lb {
        assert(b[5 + la] == decimal(ms_b)[la]);
    } else if lb < la {
        assert(a[5 + lb] == decimal(ms_a)[lb]);
    }
    assert(la == lb);
    assert(decimal(ms_a) =~= a.subrange(5, 5 + la));
    assert(decimal(ms_b) =~= b.subrange(5, 5 + lb));
    assert(decimal(suffix_a) =~= a.skip(6 + la));
    assert(decimal(suffix_b) =~= b.skip(6 + lb));
    decimal_injective(ms_a, ms_b);
    decimal_injective(suffix_a, suffix_b);
}

/// Turns what a caller queues into message blocks.
pub trait IntoQueueContent: Sized {
    /// The blocks that the value stands for.
    open spec fn queue_content(self) -> Seq<ContentView> {
        arbitrary()
    }

    fn into_queue_content(self) -> (r: Vec<Content>)
        ensures
            views(r@) == self.queue_content(),
    ;
}

impl IntoQueueContent for &str {
    open spec fn queue_content(self) -> Seq<ContentView> {
        seq![ContentView::plain(self@)]
    }

    fn into_queue_content(self) -> (r: Vec<Content>) {
        let r: Vec<Content> = vec![Content::text(self)];
        assert(views(r@) =~= self.queue_content());
        r
    }
}

impl IntoQueueContent for String {
    open spec fn queue_content(self) -> Seq<ContentView> {
        seq![ContentView::plain(self@)]
    }

    fn into_queue_content(self) -> (r: Vec<Content>) {
        let r: Vec<Content> = vec![Content::text(self.as_str())];
        assert(views(r@) =~= self.queue_content());
        r
    }
}

impl IntoQueueContent for Vec<Content> {
    open spec fn queue_content(self) -> Seq<ContentView> {
        views(self@)
    }

    fn into_queue_content(self) -> (r: Vec<Content>) {
        self
    }
}

/// Why content cannot be queued.
#[derive(Debug, PartialEq, Eq)]
pub enum SteerError {
    EmptyContent,
    /// A block is not something that a user says.
    InvalidContent,
    NoActiveTurn,
    ExpectedTurnMismatch { expected: TurnId, actual: TurnId },
    ChannelClosed,
}

impl SteerError {
    /// The error as text.
    pub fn message(&self) -> (r: String)
        ensures
            r@ == match *self {
                SteerError::EmptyContent => "queued user message content is empty"@,
                SteerError::InvalidContent => "queued user message content is not user content"@,
                SteerError::NoActiveTurn => "no active turn"@,
                SteerError::ExpectedTurnMismatch { expected, actual } => "expected active turn "@
                    + expected@ + ", got "@ + actual@,
                SteerError::ChannelClosed => "agent steering channel is closed"@,
            },
    {
        match self {
            SteerError::EmptyContent => "queued user message content is empty".to_owned(),
            SteerError::InvalidContent => {
                "queued user message content is not user content".to_owned()
            },
            SteerError::NoActiveTurn => "no active turn".to_owned(),
            SteerError::ExpectedTurnMismatch { expected, actual } => {
                let mut text: String = "expected active turn ".to_owned();
                text.append(expected.as_str());
                text.append(", got ");
                text.append(actual.as_str());
                text
            },
            SteerError::ChannelClosed => "agent steering channel is closed".to_owned(),
        }
    }
}

/// What a handle sends to the running agent.
#[derive(Clone, Debug)]
pub enum SteerCommand {
    Append { content: Vec<Content> },
}

impl SteerCommand {
    /// The blocks to append.
    pub open spec fn blocks(self) -> Seq<ContentView> {
        match self {
            SteerCommand::Append { content } => views(content@),
        }
    }
}

/// The blocks of several commands, in order.
pub open spec fn queued_blocks(commands: Seq<SteerCommand>) -> Seq<ContentView>
    decreases commands.len(),
{
    if commands.len() == 0 {
        Seq::empty()
    } else {
        queued_blocks(commands.drop_last()) + commands.last().blocks()
    }
}

/// Gathers the blocks of several commands into one list.
pub fn gather_queued(commands: Vec<SteerCommand>) -> (r: Vec<Content>)
    ensures
        views(r@) == queued_blocks(commands@),
{
    let ghost all = commands@;
    let mut out: Vec<Content> = Vec::new();
    assert(views(out@) =~= queued_blocks(all.take(0)));
    for command in it: commands
        invariant
            it.seq() == all,
            views(out@) == queued_blocks(all.take(it.index() as int)),
    {
        let ghost at = it.index() as int;
        proof {
            assert(all[at] == command);
            assert(all.take(at + 1).drop_last() =~= all.take(at));
        }
        let ghost before = out@;
        match command {
            SteerCommand::Append { content } => {
                let mut queued: Vec<Content> = content;
                let ghost added = queued@;
                out.append(&mut queued);
                assert(views(out@) =~= views(before) + views(added));
            },
        }
    }
    assert(all.take(all.len() as int) =~= all);
    out
}

/// What to interrupt.
#[derive(Clone, Debug, PartialEq, Eq)]
pub enum InterruptTarget {
    Tool { tool_call_id: String },
    Turn { turn_id: TurnId, reason: InterruptReason },
    Session,
}

/// What an interrupt came to.
#[derive(Clone, Copy, Debug, PartialEq, Eq, Structural)]
pub enum InterruptOutcome {
    Cancelled,
    NotInFlight,
    AlreadyDone,
}

/// Why a turn is interrupted.
#[derive(Clone, Copy, Debug, PartialEq, Eq, Structural)]
pub enum InterruptReason {
    UserAbort,
    Replaced,
    PolicyViolation,
}

/// Why an interrupt is refused.
#[derive(Debug, PartialEq, Eq)]
pub enum InterruptError {
    UnknownTurn(TurnId),
    ChannelClosed,
}

impl InterruptError {
    /// The error as text.
    pub fn message(&self) -> (r: String)
        ensures
            r@ == match *self {
                InterruptError::UnknownTurn(turn_id) => "unknown turn "@ + turn_id@,
                InterruptError::ChannelClosed => "agent steering channel is closed"@,
            },
    {
        match self {
            InterruptError::UnknownTurn(turn_id) => {
                let mut text: String = "unknown turn ".to_owned();
                text.append(turn_id.as_str());
                text
            },
            InterruptError::ChannelClosed => "agent steering channel is closed".to_owned(),
        }
    }
}

/// The tools in flight, each with what cancels it, and the tools that are
/// done.
#[derive(Debug)]
pub struct ToolRunTracker<T> {
    in_flight: NameMap<T>,
    completed: NameMap<()>,
}

/// Whether between two states a tool call went in flight, and nothing else
/// changed.
pub open spec fn started<T>(
    before: ToolRunTracker<T>,
    after: ToolRunTracker<T>,
    id: Seq<char>,
    cancel: T,
) -> bool {
    &&& forall|other: Seq<char>|
        #[trigger] after.running(other) == if other == id {
            Some(cancel)
        } else {
            before.running(other)
        }
    &&& forall|other: Seq<char>|
        #[trigger] after.done(other) == (other != id && before.done(other))
}

/// Whether between two states a tool call was done, and nothing else changed.
pub open spec fn ended<T>(
    before: ToolRunTracker<T>,
    after: ToolRunTracker<T>,
    id: Seq<char>,
) -> bool {
    &&& forall|other: Seq<char>|
        #[trigger] after.running(other) == if other == id {
            None
        } else {
            before.running(other)
        }
    &&& forall|other: Seq<char>|
        #[trigger] after.done(other) == (other == id || before.done(other))
}

/// An interrupt finds a call in flight from when it started until it is done,
/// and done from then on; every other call is as it was.
pub proof fn interrupts_follow_the_call<T>(
    before: ToolRunTracker<T>,
    flying: ToolRunTracker<T>,
    landed: ToolRunTracker<T>,
    id: Seq<char>,
    other: Seq<char>,
    cancel: T,
)
    requires
        started(before, flying, id, cancel),
        ended(flying, landed, id),
        other != id,
    ensures
        flying.outcome(id) == InterruptOutcome::Cancelled,
        flying.running(id) == Some(cancel),
        landed.outcome(id) == InterruptOutcome::AlreadyDone,
        flying.outcome(other) == before.outcome(other),
        landed.outcome(other) == before.outcome(other),
{
}

impl<T> ToolRunTracker<T> {
    /// What an interrupt of a tool call comes to.
    pub open spec fn outcome(&self, id: Seq<char>) -> InterruptOutcome {
        if self.running(id) is Some {
            InterruptOutcome::Cancelled
        } else if self.done(id) {
            InterruptOutcome::AlreadyDone
        } else {
            InterruptOutcome::NotInFlight
        }
    }

    /// What cancels the tool call with an id, while it is in flight.
    pub closed spec fn running(&self, id: Seq<char>) -> Option<T> {
        self.in_flight.at(id)
    }

    /// Whether the tool call with an id is done.
    pub closed spec fn done(&self, id: Seq<char>) -> bool {
        self.completed.at(id) is Some
    }

    /// Nothing in flight and nothing done.
    #[must_use]
    pub fn new() -> (r: ToolRunTracker<T>)
        ensures
            forall|id: Seq<char>| (#[trigger] r.running(id)) is None,
            forall|id: Seq<char>| !#[trigger] r.done(id),
    {
        ToolRunTracker { in_flight: NameMap::new(), completed: NameMap::new() }
    }

    /// Notes that a tool call is in flight, with what cancels it.
    pub fn register(&mut self, tool_call_id: &str, cancel: T)
        ensures
            started(*old(self), *final(self), tool_call_id@, cancel),
    {
        self.completed.remove(tool_call_id);
        self.in_flight.insert(tool_call_id, cancel);
    }

    /// Notes that a tool call is done.
    pub fn mark_done(&mut self, tool_call_id: &str)
        ensures
            ended(*old(self), *final(self), tool_call_id@),
    {
        self.in_flight.remove(tool_call_id);
        self.completed.insert(tool_call_id, ());
    }

    /// What an interrupt of a tool call comes to, and what cancels the call
    /// where it is in flight.
    pub fn interrupt(&self, tool_call_id: &str) -> (r: (InterruptOutcome, Option<&T>))
        ensures
            r.0 == self.outcome(tool_call_id@),
            match self.running(tool_call_id@) {
                Some(cancel) => r.1 == Some(&cancel),
                None => r.1 is None,
            },
    {
        match self.in_flight.get(tool_call_id) {
            Some(cancel) => (InterruptOutcome::Cancelled, Some(cancel)),
            None => if self.completed.contains(tool_call_id) {
                (InterruptOutcome::AlreadyDone, None)
            } else {
                (InterruptOutcome::NotInFlight, None)
            },
        }
    }
}

/// What was queued comes command by command and block by block, in its order.
pub proof fn queued_blocks_keep_their_order(
    first: Seq<SteerCommand>,
    second: Seq<SteerCommand>,
    content: Vec<Content>,
)
    ensures
        queued_blocks(first + second) == queued_blocks(first) + queued_blocks(second),
        queued_blocks(seq![SteerCommand::Append { content }]) == views(content@),
        queued_blocks(Seq::<SteerCommand>::empty()).len() == 0,
    decreases second.len(),
{
    reveal_with_fuel(queued_blocks, 2);
    let one = seq![SteerCommand::Append { content }];
    assert(one.drop_last() =~= Seq::<SteerCommand>::empty());
    assert(queued_blocks(one) =~= views(content@));
    if second.len() == 0 {
        assert(first + second =~= first);
        assert(queued_blocks(first) + queued_blocks(second) =~= queued_blocks(first));
    } else {
        queued_blocks_keep_their_order(first, second.drop_last(), content);
        assert((first + second).drop_last() =~= first + second.drop_last());
        assert(queued_blocks(first + second) =~= queued_blocks(first) + queued_blocks(second));
    }
}

/// A text is queued as one text block, and blocks as they are.
pub proof fn texts_are_queued_as_blocks(slice: &str, text: String, blocks: Vec<Content>)
    ensures
        slice.queue_content() == seq![ContentView::Text { text: slice@, cache_control: None }],
        text.queue_content() == seq![ContentView::Text { text: text@, cache_control: None }],
        blocks.queue_content() == views(blocks@),
{
}

} // verus!
