//! Context-size heuristics for recursive-language-model mode.

use vstd::prelude::*;

use crate::strings::str_eq;
use vstd::string::StringSliceAdditionalSpecFns;

verus! {

/// Rough token count: one token per four bytes of UTF-8.
pub fn estimate_tokens(text: &str) -> (n: usize)
    ensures
        n == (text.spec_bytes().len() as usize) / 4,
{
    text.len() / 4
}

pub open spec fn model_context_size_spec(model_hint: Option<Seq<char>>, is_cloud: bool) -> usize {
    if is_cloud {
        131_072
    } else {
        match model_hint {
            Some(h) => if h == "270M"@ {
                2_048
            } else if h == "1B"@ {
                4_096
            } else if h == "2B"@ || h == "3B"@ {
                8_192
            } else if h == "7B"@ || h == "8B"@ || h == "14B"@ {
                32_768
            } else {
                8_192
            },
            None => 8_192,
        }
    }
}

/// Default context size for a model-size hint; cloud models get 128K.
pub fn model_context_size(model_hint: Option<&str>, is_cloud: bool) -> (n: usize)
    ensures
        n == model_context_size_spec(
            match model_hint {
                Some(h) => Some(h@),
                None => None,
            },
            is_cloud,
        ),
{
    if is_cloud {
        return 131_072;
    }
    match model_hint {
        Some(h) => {
            if str_eq(h, "270M") {
                2_048
            } else if str_eq(h, "1B") {
                4_096
            } else if str_eq(h, "2B") || str_eq(h, "3B") {
                8_192
            } else if str_eq(h, "7B") || str_eq(h, "8B") || str_eq(h, "14B") {
                32_768
            } else {
                8_192
            }
        },
        None => 8_192,
    }
}

} // verus!
