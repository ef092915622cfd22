//! The gpt-oss models: which variant a slug names, and what each variant brings.

use crate::text::{starts_with, strip_prefix, trim, trimmed, without_prefix};
use vstd::prelude::*;

verus! {

/// How much reasoning a model is asked for.
#[derive(Clone, Copy, Debug, PartialEq, Eq, Hash, Structural)]
pub enum ReasoningEffort {
    Minimal,
    Low,
    Medium,
    High,
}

/// Variants of the gpt-oss family we support.
#[derive(Clone, Copy, Debug, PartialEq, Eq, Hash, Structural)]
pub enum GptOssVariant {
    V20B,
    V120B,
}

impl GptOssVariant {
    /// The family name under which the variant is known.
    pub open spec fn family_name(self) -> Seq<char> {
        match self {
            GptOssVariant::V20B => "gpt-oss-20b"@,
            GptOssVariant::V120B => "gpt-oss-120b"@,
        }
    }

    /// The reasoning effort used when the user has set none.
    pub open spec fn default_effort(self) -> ReasoningEffort {
        match self {
            GptOssVariant::V20B => ReasoningEffort::Low,
            GptOssVariant::V120B => ReasoningEffort::High,
        }
    }

    /// The text added to the base instructions for the variant.
    pub open spec fn appendix(self) -> Seq<char> {
        match self {
            GptOssVariant::V20B => "Harmony context for gpt-oss-20b\n"@,
            GptOssVariant::V120B => "Harmony context for gpt-oss-120b\n"@,
        }
    }

    /// The family name under which the variant is known.
    pub fn canonical_family(self) -> (r: &'static str)
        ensures
            r@ == self.family_name(),
    {
        match self {
            GptOssVariant::V20B => "gpt-oss-20b",
            GptOssVariant::V120B => "gpt-oss-120b",
        }
    }

    /// The reasoning effort used when the user has set none.
    pub fn default_reasoning_effort(self) -> (r: ReasoningEffort)
        ensures
            r == self.default_effort(),
    {
        match self {
            GptOssVariant::V20B => ReasoningEffort::Low,
            GptOssVariant::V120B => ReasoningEffort::High,
        }
    }

    /// The text added to the base instructions for the variant.
    pub fn developer_appendix(self) -> (r: &'static str)
        ensures
            r@ == self.appendix(),
    {
        match self {
            GptOssVariant::V20B => "Harmony context for gpt-oss-20b\n",
            GptOssVariant::V120B => "Harmony context for gpt-oss-120b\n",
        }
    }
}

/// A slug as it is matched: trimmed, and without a leading `openai/`.
pub open spec fn normalized(slug: Seq<char>) -> Seq<char> {
    match without_prefix(trimmed(slug), "openai/"@) {
        Some(rest) => rest,
        None => trimmed(slug),
    }
}

/// The variant that a slug names, if any.
pub open spec fn variant_of(slug: Seq<char>) -> Option<GptOssVariant> {
    let s = normalized(slug);
    if "gpt-oss:20b"@.is_prefix_of(s) || "gpt-oss-20b"@.is_prefix_of(s) {
        Some(GptOssVariant::V20B)
    } else if "gpt-oss:120b"@.is_prefix_of(s) || "gpt-oss-120b"@.is_prefix_of(s) {
        Some(GptOssVariant::V120B)
    } else {
        None
    }
}

/// Normalize common slug representations into an `Option<GptOssVariant>`.
pub fn detect_variant(slug: &str) -> (r: Option<GptOssVariant>)
    ensures
        r == variant_of(slug@),
{
    let slug = trim(slug);
    let slug = match strip_prefix(slug, "openai/") {
        Some(rest) => rest,
        None => slug,
    };
    if starts_with(slug, "gpt-oss:20b") || starts_with(slug, "gpt-oss-20b") {
        Some(GptOssVariant::V20B)
    } else if starts_with(slug, "gpt-oss:120b") || starts_with(slug, "gpt-oss-120b") {
        Some(GptOssVariant::V120B)
    } else {
        None
    }
}

} // verus!
