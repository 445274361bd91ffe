//! Tools that come with the runtime.
pub mod sub_agent;
