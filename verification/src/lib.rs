//! # tkach
//!
//! The decisions of a provider-independent agent runtime, verified.
//!
//! The agent is stateless: callers own the message history and pass it in on
//! every run. The library decides and its driver acts. [`AgentRun`] says when
//! to ask the provider, which events to forward and which tools to run;
//! [`Batch`] and [`ToolRun`] schedule and gate the calls; the providers turn
//! conversations into requests and event streams into answers. Network,
//! clocks, channels and tasks are the driver's.
//!
//! A contract says what one function does. What holds of all inputs, of several
//! calls or of a whole run is stated as a proof function: in the modules whose
//! names end in `_laws`, and elsewhere beside what it speaks of.
pub mod agent;
pub mod agent_laws;
pub mod builder;
pub mod concurrency;
pub mod error;
pub mod executor;
pub mod executor_laws;
pub mod guard;
pub mod handle;
pub mod json;
pub mod message;
pub mod mode;
pub mod model;
pub mod names;
pub mod policy;
pub mod prompt_policy;
pub mod provider;
pub mod providers;
pub mod registry;
pub mod reports;
pub mod steering;
pub mod stream;
pub mod text;
pub mod tool;
pub mod tools;
pub mod turn_laws;
pub mod user_input;
pub mod view_laws;

pub use agent::{AgentError, AgentResult, AgentRun, Pull, RunAction, RunReply, RunSettings};
pub use builder::{Agent, AgentBuilder, BuildError};
pub use concurrency::{ConcurrencyConfig, Pool, ToolConcurrency};
pub use error::ProviderError;
pub use executor::{
    ApprovalAnswer, Batch, BatchStep, CallReply, CallStep, RoutingClass, ToolExecutor, ToolRun,
};
pub use guard::{
    AgentSnapshot, ContinuationGuard, GuardDecision, GuardError, GuardEscape, GuardEval, GuardId,
    GuardPredicate, GuardSet, GuardTrigger, PredicateOutcome,
};
pub use handle::AgentHandle;
pub use json::{Json, JsonNumber};
pub use message::{
    CacheControl, CacheTtl, Content, Message, Role, StopReason, ThinkingMetadata, ThinkingProvider,
    Usage,
};
pub use mode::{
    AcceptEditsMode, AgentMode, DefaultMode, ModeAnswer, ModeAuthority, ModeControl, ModeDecision,
    ModeError, PlanMode,
};
pub use policy::{AllowAll, AllowList, IntersectPolicy, ScopedPolicy, ToolPolicy};
pub use prompt_policy::{
    IntentMatcher, PolicyError, PolicyId, PolicyMetadata, PolicyScope, PolicyTrigger,
    PolicyTriggerMetadata, PromptPolicy, PromptPolicySet, Shared,
};
pub use provider::{
    Request, Response, SystemBlock, ThinkingConfig, ThinkingEffort, ToolDefinition,
};
pub use registry::ToolRegistry;
pub use reports::ReportedPolicies;
pub use steering::{
    InterruptError, InterruptOutcome, InterruptReason, InterruptTarget, IntoQueueContent,
    SteerCommand, SteerError, ToolRunTracker, TurnId,
};
pub use stream::StreamEvent;
pub use tool::{ToolCall, ToolClass, ToolOutput, ToolSpec};
pub use tools::sub_agent::SubAgent;
pub use user_input::{
    Answer, AskUserError, BridgeError, Question, QuestionOption, QuestionSet, UserInputResponse,
};
