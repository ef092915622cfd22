//! Model families: groups of models that share instructions and capabilities.

use crate::gpt_oss::{detect_variant, variant_of, GptOssVariant, ReasoningEffort};
use crate::text::{starts_with, trim, trimmed};
use vstd::prelude::*;
use vstd::string::*;

verus! {

/// How the reasoning summary of a family is handled.
#[derive(Clone, Copy, Debug, PartialEq, Eq, Hash, Structural)]
pub enum ReasoningSummaryFormat {
    NoFormat,
    Experimental,
}

/// The form in which `apply_patch` is offered to a model.
#[derive(Clone, Copy, Debug, PartialEq, Eq, Hash, Structural)]
pub enum ApplyPatchToolType {
    Freeform,
    Function,
}

/// The instruction texts that families are built from.
#[derive(Clone, Debug, PartialEq, Eq)]
pub struct InstructionTexts {
    /// What the `instructions` of every request start with.
    pub base: String,
    /// The instructions of the codex families, which replace the base text.
    pub gpt_5_codex: String,
}

/// A model family is a group of models that share certain characteristics.
#[derive(Clone, Debug, PartialEq, Eq)]
pub struct ModelFamily {
    /// The full model slug used to derive this model family, e.g.
    /// "gpt-4.1-2025-04-14".
    pub slug: String,
    /// The model family name, e.g. "gpt-4.1".
    pub family: String,
    /// True if the model needs additional instructions on how to use the
    /// "virtual" `apply_patch` CLI.
    pub needs_special_apply_patch_instructions: bool,
    /// Whether the `reasoning` field can be set when making a request to this
    /// model family.
    pub supports_reasoning_summaries: bool,
    /// Whether the reasoning summary needs special handling.
    pub reasoning_summary_format: ReasoningSummaryFormat,
    /// True when the model expects a tool named "local_shell" to be provided.
    pub uses_local_shell_tool: bool,
    /// Present if the model performs better when `apply_patch` is provided as
    /// a tool call instead of just a bash command.
    pub apply_patch_tool_type: Option<ApplyPatchToolType>,
    /// Optional default reasoning effort to apply when the user has not set one.
    pub default_reasoning_effort: Option<ReasoningEffort>,
    /// When set, identifies which gpt-oss variant this family represents.
    pub gpt_oss_variant: Option<GptOssVariant>,
    /// Instructions to use for querying the model.
    pub base_instructions: String,
    /// Names of beta tools that should be exposed to this model family.
    pub experimental_supported_tools: Vec<String>,
}

/// What an `InstructionTexts` holds.
pub ghost struct InstructionTextsView {
    pub base: Seq<char>,
    pub gpt_5_codex: Seq<char>,
}

/// What a `ModelFamily` holds.
pub ghost struct ModelFamilyView {
    pub slug: Seq<char>,
    pub family: Seq<char>,
    pub needs_special_apply_patch_instructions: bool,
    pub supports_reasoning_summaries: bool,
    pub reasoning_summary_format: ReasoningSummaryFormat,
    pub uses_local_shell_tool: bool,
    pub apply_patch_tool_type: Option<ApplyPatchToolType>,
    pub default_reasoning_effort: Option<ReasoningEffort>,
    pub gpt_oss_variant: Option<GptOssVariant>,
    pub base_instructions: Seq<char>,
    pub experimental_supported_tools: Seq<Seq<char>>,
}

impl View for InstructionTexts {
    type V = InstructionTextsView;

    open spec fn view(&self) -> InstructionTextsView {
        InstructionTextsView { base: self.base@, gpt_5_codex: self.gpt_5_codex@ }
    }
}

impl View for ModelFamily {
    type V = ModelFamilyView;

    open spec fn view(&self) -> ModelFamilyView {
        ModelFamilyView {
            slug: self.slug@,
            family: self.family@,
            needs_special_apply_patch_instructions: self.needs_special_apply_patch_instructions,
            supports_reasoning_summaries: self.supports_reasoning_summaries,
            reasoning_summary_format: self.reasoning_summary_format,
            uses_local_shell_tool: self.uses_local_shell_tool,
            apply_patch_tool_type: self.apply_patch_tool_type,
            default_reasoning_effort: self.default_reasoning_effort,
            gpt_oss_variant: self.gpt_oss_variant,
            base_instructions: self.base_instructions@,
            experimental_supported_tools: Seq::new(
                self.experimental_supported_tools@.len(),
                |i: int| self.experimental_supported_tools@[i]@,
            ),
        }
    }
}

/// The family of a model that nothing is known of: every capability off, the
/// base instructions, and the slug as the family name.
pub open spec fn plain_family(slug: Seq<char>, family: Seq<char>, base: Seq<char>)
    -> ModelFamilyView {
    ModelFamilyView {
        slug,
        family,
        needs_special_apply_patch_instructions: false,
        supports_reasoning_summaries: false,
        reasoning_summary_format: ReasoningSummaryFormat::NoFormat,
        uses_local_shell_tool: false,
        apply_patch_tool_type: None,
        default_reasoning_effort: None,
        gpt_oss_variant: None,
        base_instructions: base,
        experimental_supported_tools: Seq::empty(),
    }
}

/// The instructions of a gpt-oss variant: the base text, a line break, and the
/// variant's appendix without the white space around it.
pub open spec fn gpt_oss_instructions(base: Seq<char>, variant: GptOssVariant) -> Seq<char> {
    base + seq!['\n'] + trimmed(variant.appendix())
}

/// The family of a gpt-oss variant.
pub open spec fn gpt_oss_family(slug: Seq<char>, variant: GptOssVariant, base: Seq<char>)
    -> ModelFamilyView {
    ModelFamilyView {
        apply_patch_tool_type: Some(ApplyPatchToolType::Function),
        supports_reasoning_summaries: variant == GptOssVariant::V120B,
        default_reasoning_effort: Some(variant.default_effort()),
        gpt_oss_variant: Some(variant),
        ..plain_family(slug, variant.family_name(), gpt_oss_instructions(base, variant))
    }
}

/// The family that a slug belongs to. The first rule that matches decides.
pub open spec fn family_of(slug: Seq<char>, texts: InstructionTextsView) -> Option<
    ModelFamilyView,
> {
    if "o3"@.is_prefix_of(slug) {
        Some(
            ModelFamilyView {
                supports_reasoning_summaries: true,
                needs_special_apply_patch_instructions: true,
                ..plain_family(slug, "o3"@, texts.base)
            },
        )
    } else if "o4-mini"@.is_prefix_of(slug) {
        Some(
            ModelFamilyView {
                supports_reasoning_summaries: true,
                needs_special_apply_patch_instructions: true,
                ..plain_family(slug, "o4-mini"@, texts.base)
            },
        )
    } else if "codex-mini-latest"@.is_prefix_of(slug) {
        Some(
            ModelFamilyView {
                supports_reasoning_summaries: true,
                uses_local_shell_tool: true,
                needs_special_apply_patch_instructions: true,
                ..plain_family(slug, "codex-mini-latest"@, texts.base)
            },
        )
    } else if "gpt-4.1"@.is_prefix_of(slug) {
        Some(
            ModelFamilyView {
                needs_special_apply_patch_instructions: true,
                ..plain_family(slug, "gpt-4.1"@, texts.base)
            },
        )
    } else if let Some(variant) = variant_of(slug) {
        Some(gpt_oss_family(slug, variant, texts.base))
    } else if "gpt-oss"@.is_prefix_of(slug) || "openai/gpt-oss"@.is_prefix_of(slug) {
        Some(
            ModelFamilyView {
                apply_patch_tool_type: Some(ApplyPatchToolType::Function),
                ..plain_family(slug, "gpt-oss"@, texts.base)
            },
        )
    } else if "gpt-4o"@.is_prefix_of(slug) {
        Some(
            ModelFamilyView {
                needs_special_apply_patch_instructions: true,
                ..plain_family(slug, "gpt-4o"@, texts.base)
            },
        )
    } else if "gpt-3.5"@.is_prefix_of(slug) {
        Some(
            ModelFamilyView {
                needs_special_apply_patch_instructions: true,
                ..plain_family(slug, "gpt-3.5"@, texts.base)
            },
        )
    } else if "codex-"@.is_prefix_of(slug) || "gpt-5-codex"@.is_prefix_of(slug) {
        Some(
            ModelFamilyView {
                supports_reasoning_summaries: true,
                reasoning_summary_format: ReasoningSummaryFormat::Experimental,
                experimental_supported_tools: seq!["read_file"@],
                ..plain_family(slug, slug, texts.gpt_5_codex)
            },
        )
    } else if "gpt-5"@.is_prefix_of(slug) {
        Some(
            ModelFamilyView {
                supports_reasoning_summaries: true,
                needs_special_apply_patch_instructions: true,
                ..plain_family(slug, "gpt-5"@, texts.base)
            },
        )
    } else {
        None
    }
}

/// A family with every capability off.
fn plain(slug: &str, family: &str, base: &str) -> (r: ModelFamily)
    ensures
        r@ == plain_family(slug@, family@, base@),
{
    let r = ModelFamily {
        slug: String::from_str(slug),
        family: String::from_str(family),
        needs_special_apply_patch_instructions: false,
        supports_reasoning_summaries: false,
        reasoning_summary_format: ReasoningSummaryFormat::NoFormat,
        uses_local_shell_tool: false,
        apply_patch_tool_type: None,
        default_reasoning_effort: None,
        gpt_oss_variant: None,
        base_instructions: String::from_str(base),
        experimental_supported_tools: Vec::new(),
    };
    assert(r@.experimental_supported_tools =~= Seq::empty());
    r
}

/// Returns a `ModelFamily` for the given model slug, or `None` if the slug
/// does not match any known model family.
pub fn find_family_for_model(slug: &str, texts: &InstructionTexts) -> (r: Option<ModelFamily>)
    ensures
        match r {
            Some(family) => Some(family@) == family_of(slug@, texts@),
            None => family_of(slug@, texts@) is None,
        },
{
    let base = texts.base.as_str();
    if starts_with(slug, "o3") {
        let mut mf = plain(slug, "o3", base);
        mf.supports_reasoning_summaries = true;
        mf.needs_special_apply_patch_instructions = true;
        Some(mf)
    } else if starts_with(slug, "o4-mini") {
        let mut mf = plain(slug, "o4-mini", base);
        mf.supports_reasoning_summaries = true;
        mf.needs_special_apply_patch_instructions = true;
        Some(mf)
    } else if starts_with(slug, "codex-mini-latest") {
        let mut mf = plain(slug, "codex-mini-latest", base);
        mf.supports_reasoning_summaries = true;
        mf.uses_local_shell_tool = true;
        mf.needs_special_apply_patch_instructions = true;
        Some(mf)
    } else if starts_with(slug, "gpt-4.1") {
        let mut mf = plain(slug, "gpt-4.1", base);
        mf.needs_special_apply_patch_instructions = true;
        Some(mf)
    } else if let Some(variant) = detect_variant(slug) {
        let appendix = variant.developer_appendix();
        let base_instructions = String::from_str(base).concat("\n").concat(trim(appendix));
        proof {
            reveal_strlit("\n");
            assert("\n"@ =~= seq!['\n']);
        }
        let mut mf = plain(slug, variant.canonical_family(), base_instructions.as_str());
        mf.apply_patch_tool_type = Some(ApplyPatchToolType::Function);
        mf.supports_reasoning_summaries = match variant {
            GptOssVariant::V20B => false,
            GptOssVariant::V120B => true,
        };
        mf.default_reasoning_effort = Some(variant.default_reasoning_effort());
        mf.gpt_oss_variant = Some(variant);
        Some(mf)
    } else if starts_with(slug, "gpt-oss") || starts_with(slug, "openai/gpt-oss") {
        let mut mf = plain(slug, "gpt-oss", base);
        mf.apply_patch_tool_type = Some(ApplyPatchToolType::Function);
        Some(mf)
    } else if starts_with(slug, "gpt-4o") {
        let mut mf = plain(slug, "gpt-4o", base);
        mf.needs_special_apply_patch_instructions = true;
        Some(mf)
    } else if starts_with(slug, "gpt-3.5") {
        let mut mf = plain(slug, "gpt-3.5", base);
        mf.needs_special_apply_patch_instructions = true;
        Some(mf)
    } else if starts_with(slug, "codex-") || starts_with(slug, "gpt-5-codex") {
        let mut mf = plain(slug, slug, texts.gpt_5_codex.as_str());
        mf.supports_reasoning_summaries = true;
        mf.reasoning_summary_format = ReasoningSummaryFormat::Experimental;
        let mut tools: Vec<String> = Vec::new();
        tools.push(String::from_str("read_file"));
        mf.experimental_supported_tools = tools;
        assert(mf@.experimental_supported_tools =~= seq!["read_file"@]);
        Some(mf)
    } else if starts_with(slug, "gpt-5") {
        let mut mf = plain(slug, "gpt-5", base);
        mf.supports_reasoning_summaries = true;
        mf.needs_special_apply_patch_instructions = true;
        Some(mf)
    } else {
        None
    }
}

/// The family of a model that no rule knows.
pub fn derive_default_model_family(model: &str, texts: &InstructionTexts) -> (r: ModelFamily)
    ensures
        r@ == plain_family(model@, model@, texts@.base),
{
    plain(model, model, texts.base.as_str())
}

} // verus!
