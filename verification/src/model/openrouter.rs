//! OpenRouter model names.
use vstd::prelude::*;

verus! {

/// OpenAI GPT-5.5 through OpenRouter.
pub const OPENAI_GPT_5_5: &'static str = "openai/gpt-5.5";

} // verus!
