//! Tools as the runtime sees them: what a tool is, what it is asked and what
//! it answers.
use crate::json::{Json, JsonView};
use crate::text::views;
use vstd::prelude::*;

verus! {

/// Whether a tool changes the world.
#[derive(Clone, Copy, Debug, PartialEq, Eq, Structural)]
pub enum ToolClass {
    ReadOnly,
    Mutating,
}

/// What a tool says of itself.
#[derive(Debug)]
pub struct ToolSpec {
    pub name: String,
    pub description: String,
    pub input_schema: Json,
    pub class: ToolClass,
    /// Whether the tool may spawn agents of its own.
    pub recursive: bool,
}

/// What a [`ToolSpec`] stands for.
#[verifier::ext_equal]
pub struct ToolSpecView {
    pub name: Seq<char>,
    pub description: Seq<char>,
    pub input_schema: JsonView,
    pub class: ToolClass,
    pub recursive: bool,
}

impl View for ToolSpec {
    type V = ToolSpecView;

    open spec fn view(&self) -> ToolSpecView {
        ToolSpecView {
            name: self.name@,
            description: self.description@,
            input_schema: self.input_schema@,
            class: self.class,
            recursive: self.recursive,
        }
    }
}

impl Clone for ToolSpec {
    fn clone(&self) -> (r: ToolSpec)
        ensures
            r@ == self@,
    {
        ToolSpec {
            name: self.name.clone(),
            description: self.description.clone(),
            input_schema: self.input_schema.clone(),
            class: self.class,
            recursive: self.recursive,
        }
    }
}

/// One request of the model to run a tool.
#[derive(Debug)]
pub struct ToolCall {
    pub id: String,
    pub name: String,
    pub input: Json,
}

/// What a [`ToolCall`] stands for.
#[verifier::ext_equal]
pub struct ToolCallView {
    pub id: Seq<char>,
    pub name: Seq<char>,
    pub input: JsonView,
}

impl View for ToolCall {
    type V = ToolCallView;

    open spec fn view(&self) -> ToolCallView {
        ToolCallView { id: self.id@, name: self.name@, input: self.input@ }
    }
}

impl Clone for ToolCall {
    fn clone(&self) -> (r: ToolCall)
        ensures
            r@ == self@,
    {
        ToolCall { id: self.id.clone(), name: self.name.clone(), input: self.input.clone() }
    }
}

/// Copies a batch of calls.
pub fn clone_calls(calls: &Vec<ToolCall>) -> (r: Vec<ToolCall>)
    ensures
        views(r@) == views(calls@),
{
    let mut out: Vec<ToolCall> = Vec::new();
    let mut i: usize = 0;
    while i < calls.len()
        invariant
            i <= calls.len(),
            out.len() == i,
            forall|k: int| 0 <= k < i ==> (#[trigger] out@[k])@ == calls@[k]@,
        decreases calls.len() - i,
    {
        out.push(calls[i].clone());
        i = i + 1;
    }
    assert(views(out@) =~= views(calls@));
    out
}

/// What a tool answers.
#[derive(Debug, PartialEq, Eq)]
pub struct ToolOutput {
    pub content: String,
    pub is_error: bool,
}

/// What a [`ToolOutput`] stands for.
#[verifier::ext_equal]
pub struct ToolOutputView {
    pub content: Seq<char>,
    pub is_error: bool,
}

impl View for ToolOutput {
    type V = ToolOutputView;

    open spec fn view(&self) -> ToolOutputView {
        ToolOutputView { content: self.content@, is_error: self.is_error }
    }
}

impl ToolOutput {
    /// A successful answer.
    pub fn text(content: &str) -> (r: ToolOutput)
        ensures
            r@ == (ToolOutputView { content: content@, is_error: false }),
    {
        ToolOutput { content: content.to_owned(), is_error: false }
    }

    /// An answer that reports a failure to the model.
    pub fn error(content: &str) -> (r: ToolOutput)
        ensures
            r@ == (ToolOutputView { content: content@, is_error: true }),
    {
        ToolOutput { content: content.to_owned(), is_error: true }
    }
}

} // verus!
