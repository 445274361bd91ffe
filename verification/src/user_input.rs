//! Questions to the operator.
use vstd::prelude::*;
use vstd::string::*;

verus! {

/// Questions that are asked together.
#[derive(Clone, Debug, PartialEq, Eq)]
pub struct QuestionSet {
    pub questions: Vec<Question>,
}

/// One question.
#[derive(Clone, Debug, PartialEq, Eq)]
pub struct Question {
    pub header: String,
    pub question: String,
    pub options: Vec<QuestionOption>,
    pub multi_select: bool,
}

/// One way to answer a question.
#[derive(Clone, Debug, PartialEq, Eq)]
pub struct QuestionOption {
    pub label: String,
    pub description: Option<String>,
}

/// The answer to one question.
#[derive(Clone, Debug, PartialEq, Eq)]
pub struct Answer {
    pub question_index: usize,
    pub selected_options: Vec<usize>,
    pub text: Option<String>,
}

/// What asking came to.
#[derive(Clone, Debug, PartialEq, Eq)]
pub enum UserInputResponse {
    Answered(Vec<Answer>),
    Cancelled,
    TimedOut,
}

/// Why the bridge to the operator failed, in its own words.
#[derive(Debug, PartialEq, Eq)]
#[non_exhaustive]
pub enum BridgeError {
    Transport(String),
    Protocol(String),
    Custom(String),
}

/// Why the operator cannot be asked.
#[derive(Debug, PartialEq, Eq)]
pub enum AskUserError {
    /// Only the outermost agent may ask.
    NotRootThread,
    /// There is no bridge to the operator.
    NoUserInputBridge,
    /// The bridge failed.
    BridgeError(BridgeError),
}

impl BridgeError {
    /// The error as text.
    pub open spec fn text(self) -> Seq<char> {
        match self {
            BridgeError::Transport(reason) => "bridge transport error: "@ + reason@,
            BridgeError::Protocol(reason) => "bridge protocol error: "@ + reason@,
            BridgeError::Custom(reason) => "bridge error: "@ + reason@,
        }
    }

    /// The error as text.
    pub fn message(&self) -> (r: String)
        ensures
            r@ == self.text(),
    {
        match self {
            BridgeError::Transport(reason) => {
                let mut text: String = "bridge transport error: ".to_owned();
                text.append(reason.as_str());
                text
            },
            BridgeError::Protocol(reason) => {
                let mut text: String = "bridge protocol error: ".to_owned();
                text.append(reason.as_str());
                text
            },
            BridgeError::Custom(reason) => {
                let mut text: String = "bridge error: ".to_owned();
                text.append(reason.as_str());
                text
            },
        }
    }
}

impl AskUserError {
    /// The error as text.
    pub fn message(&self) -> (r: String)
        ensures
            r@ == match *self {
                AskUserError::NotRootThread => {
                    "ask_user is only available from the root agent thread"@
                },
                AskUserError::NoUserInputBridge => "no user input bridge is registered"@,
                AskUserError::BridgeError(error) => error.text(),
            },
    {
        match self {
            AskUserError::NotRootThread => {
                "ask_user is only available from the root agent thread".to_owned()
            },
            AskUserError::NoUserInputBridge => "no user input bridge is registered".to_owned(),
            AskUserError::BridgeError(error) => error.message(),
        }
    }
}

/// Checks whether an agent may ask the operator: only the outermost may, and
/// only over a bridge.
pub fn may_ask_user(depth: usize, has_bridge: bool) -> (r: Result<(), AskUserError>)
    ensures
        r == if depth > 0 {
            Err::<(), AskUserError>(AskUserError::NotRootThread)
        } else if !has_bridge {
            Err::<(), AskUserError>(AskUserError::NoUserInputBridge)
        } else {
            Ok::<(), AskUserError>(())
        },
{
    if depth > 0 {
        Err(AskUserError::NotRootThread)
    } else if !has_bridge {
        Err(AskUserError::NoUserInputBridge)
    } else {
        Ok(())
    }
}

/// What asking came to, given what the bridge collected in time; `None` where
/// the time ran out.
pub fn collected_in_time(collected: Option<Result<UserInputResponse, BridgeError>>) -> (r: Result<
    UserInputResponse,
    AskUserError,
>)
    ensures
        r == match collected {
            Some(Ok(response)) => Ok::<UserInputResponse, AskUserError>(response),
            Some(Err(error)) => Err::<UserInputResponse, AskUserError>(
                AskUserError::BridgeError(error),
            ),
            None => Ok::<UserInputResponse, AskUserError>(UserInputResponse::TimedOut),
        },
{
    match collected {
        Some(Ok(response)) => Ok(response),
        Some(Err(error)) => Err(AskUserError::BridgeError(error)),
        None => Ok(UserInputResponse::TimedOut),
    }
}

} // verus!
