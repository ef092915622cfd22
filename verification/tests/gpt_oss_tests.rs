use codex_core::gpt_oss::{detect_variant, GptOssVariant, ReasoningEffort};
use codex_core::model_family::{
    derive_default_model_family, find_family_for_model, ApplyPatchToolType, InstructionTexts,
    ModelFamily, ReasoningSummaryFormat,
};

fn texts() -> InstructionTexts {
    InstructionTexts {
        base: "You are a coding agent.".to_string(),
        gpt_5_codex: "You are Codex.".to_string(),
    }
}

fn plain(slug: &str, family: &str) -> ModelFamily {
    ModelFamily {
        slug: slug.to_string(),
        family: family.to_string(),
        needs_special_apply_patch_instructions: false,
        supports_reasoning_summaries: false,
        reasoning_summary_format: ReasoningSummaryFormat::NoFormat,
        uses_local_shell_tool: false,
        apply_patch_tool_type: None,
        default_reasoning_effort: None,
        gpt_oss_variant: None,
        base_instructions: "You are a coding agent.".to_string(),
        experimental_supported_tools: Vec::new(),
    }
}

#[test]
fn gpt_oss_20b_defaults_low_reasoning() {
    let family = find_family_for_model("gpt-oss:20b", &texts()).unwrap();

    assert_eq!(family.slug, "gpt-oss:20b");
    assert_eq!(family.default_reasoning_effort, Some(ReasoningEffort::Low));
    assert_eq!(family.gpt_oss_variant, Some(GptOssVariant::V20B));
    assert!(family.base_instructions.contains("Harmony context for gpt-oss-20b"));
    assert!(!family.supports_reasoning_summaries);
}

#[test]
fn gpt_oss_120b_defaults_high_reasoning() {
    let family = find_family_for_model("gpt-oss:120b", &texts()).unwrap();

    assert_eq!(family.slug, "gpt-oss:120b");
    assert_eq!(family.default_reasoning_effort, Some(ReasoningEffort::High));
    assert_eq!(family.gpt_oss_variant, Some(GptOssVariant::V120B));
    assert!(family.base_instructions.contains("Harmony context for gpt-oss-120b"));
    assert!(family.supports_reasoning_summaries);
}

#[test]
fn variants_have_their_names_efforts_and_appendices() {
    assert_eq!(GptOssVariant::V20B.canonical_family(), "gpt-oss-20b");
    assert_eq!(GptOssVariant::V120B.canonical_family(), "gpt-oss-120b");
    assert_eq!(GptOssVariant::V20B.default_reasoning_effort(), ReasoningEffort::Low);
    assert_eq!(GptOssVariant::V120B.default_reasoning_effort(), ReasoningEffort::High);
    assert_eq!(GptOssVariant::V20B.developer_appendix(), "Harmony context for gpt-oss-20b\n");
    assert_eq!(GptOssVariant::V120B.developer_appendix(), "Harmony context for gpt-oss-120b\n");
}

#[test]
fn detect_variant_accepts_the_common_spellings() {
    assert_eq!(detect_variant("gpt-oss:20b"), Some(GptOssVariant::V20B));
    assert_eq!(detect_variant("gpt-oss-20b"), Some(GptOssVariant::V20B));
    assert_eq!(detect_variant("gpt-oss:120b"), Some(GptOssVariant::V120B));
    assert_eq!(detect_variant("gpt-oss-120b"), Some(GptOssVariant::V120B));
    assert_eq!(detect_variant("openai/gpt-oss-20b"), Some(GptOssVariant::V20B));
    assert_eq!(detect_variant("openai/gpt-oss:120b"), Some(GptOssVariant::V120B));
    assert_eq!(detect_variant("  openai/gpt-oss-120b-instruct \n"), Some(GptOssVariant::V120B));
    assert_eq!(detect_variant("gpt-oss:20b-q4"), Some(GptOssVariant::V20B));
}

#[test]
fn detect_variant_rejects_what_is_no_variant() {
    assert_eq!(detect_variant(""), None);
    assert_eq!(detect_variant("gpt-oss"), None);
    assert_eq!(detect_variant("gpt-oss:2"), None);
    assert_eq!(detect_variant("gpt-oss_20b"), None);
    assert_eq!(detect_variant("GPT-OSS:20B"), None);
    assert_eq!(detect_variant("openai/openai/gpt-oss:20b"), None);
    assert_eq!(detect_variant("x gpt-oss:20b"), None);
    assert_eq!(detect_variant("openai/ gpt-oss:20b"), None);
}

#[test]
fn gpt_oss_instructions_are_base_line_break_and_trimmed_appendix() {
    let family = find_family_for_model("openai/gpt-oss-20b", &texts()).unwrap();
    assert_eq!(
        family.base_instructions,
        "You are a coding agent.\nHarmony context for gpt-oss-20b"
    );
    let mut expected = plain("openai/gpt-oss-20b", "gpt-oss-20b");
    expected.apply_patch_tool_type = Some(ApplyPatchToolType::Function);
    expected.default_reasoning_effort = Some(ReasoningEffort::Low);
    expected.gpt_oss_variant = Some(GptOssVariant::V20B);
    expected.base_instructions =
        "You are a coding agent.\nHarmony context for gpt-oss-20b".to_string();
    assert_eq!(family, expected);
}

#[test]
fn families_of_the_reasoning_models() {
    for (slug, name) in [("o3", "o3"), ("o3-mini", "o3"), ("o4-mini-high", "o4-mini"), ("gpt-5", "gpt-5"),
        ("gpt-5-mini", "gpt-5")]
    {
        let mut expected = plain(slug, name);
        expected.supports_reasoning_summaries = true;
        expected.needs_special_apply_patch_instructions = true;
        assert_eq!(find_family_for_model(slug, &texts()), Some(expected));
    }
}

#[test]
fn family_of_codex_mini_latest_uses_the_local_shell() {
    let mut expected = plain("codex-mini-latest", "codex-mini-latest");
    expected.supports_reasoning_summaries = true;
    expected.uses_local_shell_tool = true;
    expected.needs_special_apply_patch_instructions = true;
    assert_eq!(find_family_for_model("codex-mini-latest", &texts()), Some(expected));
}

#[test]
fn families_that_only_need_patch_instructions() {
    for (slug, name) in [("gpt-4.1-2025-04-14", "gpt-4.1"), ("gpt-4o-mini", "gpt-4o"),
        ("gpt-3.5-turbo", "gpt-3.5")]
    {
        let mut expected = plain(slug, name);
        expected.needs_special_apply_patch_instructions = true;
        assert_eq!(find_family_for_model(slug, &texts()), Some(expected));
    }
}

#[test]
fn family_of_an_unnamed_gpt_oss_model() {
    for slug in ["gpt-oss", "gpt-oss:7b", "openai/gpt-oss-mini"] {
        let mut expected = plain(slug, "gpt-oss");
        expected.apply_patch_tool_type = Some(ApplyPatchToolType::Function);
        assert_eq!(find_family_for_model(slug, &texts()), Some(expected));
    }
}

#[test]
fn codex_families_carry_their_own_instructions() {
    for slug in ["codex-1", "gpt-5-codex", "gpt-5-codex-high"] {
        let mut expected = plain(slug, slug);
        expected.supports_reasoning_summaries = true;
        expected.reasoning_summary_format = ReasoningSummaryFormat::Experimental;
        expected.base_instructions = "You are Codex.".to_string();
        expected.experimental_supported_tools = vec!["read_file".to_string()];
        assert_eq!(find_family_for_model(slug, &texts()), Some(expected));
    }
}

#[test]
fn a_variant_is_found_in_a_slug_with_white_space_around_it() {
    let family = find_family_for_model(" gpt-oss:120b ", &texts()).unwrap();
    assert_eq!(family.slug, " gpt-oss:120b ");
    assert_eq!(family.family, "gpt-oss-120b");
    assert_eq!(family.gpt_oss_variant, Some(GptOssVariant::V120B));
}

#[test]
fn unknown_slugs_have_no_family() {
    for slug in ["", "llama3", "gpt-4", "o1", " o3", "mistral", "GPT-5"] {
        assert_eq!(find_family_for_model(slug, &texts()), None, "{:?}", slug);
    }
}

#[test]
fn the_default_family_has_every_capability_off() {
    assert_eq!(derive_default_model_family("llama3", &texts()), plain("llama3", "llama3"));
    assert_eq!(derive_default_model_family("", &texts()), plain("", ""));
}
