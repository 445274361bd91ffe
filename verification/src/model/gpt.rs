//! OpenAI model names.
use vstd::prelude::*;

verus! {

/// GPT-5.
pub const FIVE: &'static str = "gpt-5";

/// GPT-5 Codex.
pub const FIVE_CODEX: &'static str = "gpt-5-codex";

/// GPT-5.5.
pub const FIVE_FIVE: &'static str = "gpt-5.5";

} // verus!
