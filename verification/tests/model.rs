use tkach::model::{gpt, openrouter};

#[test]
fn gpt_constants_match_wire_names() {
    assert_eq!(gpt::FIVE, "gpt-5");
    assert_eq!(gpt::FIVE_CODEX, "gpt-5-codex");
    assert_eq!(gpt::FIVE_FIVE, "gpt-5.5");
}

#[test]
fn openrouter_gpt_matches_its_wire_name() {
    assert_eq!(openrouter::OPENAI_GPT_5_5, "openai/gpt-5.5");
}
