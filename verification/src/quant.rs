//! Reading the quantization label out of a GGUF file name: the suffix after
//! the last dash or dot before `.gguf`, with a fixed list of known labels as
//! a fallback for names that carry one elsewhere.

use vstd::prelude::*;
use crate::text::contains_seq;
use crate::text::lower_seq;
use crate::text::upper_seq;
use crate::text::rfind_char_spec;
use crate::text::lemma_rfind_props;

verus! {

/// The label hidden before `.gguf`: the uppercased text after the last dash
/// or dot of `base`, or `base` itself when there is no separator or nothing
/// follows it.
pub open spec fn spec_quant_from_base(base: Seq<char>) -> Seq<char> {
    let dash = rfind_char_spec(base, '-');
    let dot = rfind_char_spec(base, '.');
    let sep = match (dash, dot) {
        (Some(a), Some(b)) => Some(
            if b > a {
                b
            } else {
                a
            },
        ),
        (Some(a), None) => Some(a),
        (None, Some(b)) => Some(b),
        (None, None) => None,
    };
    match sep {
        Some(p) => if p + 1 < base.len() {
            upper_seq(base.skip(p + 1))
        } else {
            base
        },
        None => base,
    }
}

/// Extracts the quantization part of `base` (the file name up to `.gguf`).
fn quant_from_base(base: &Vec<char>) -> (r: String)
    ensures
        r@ == spec_quant_from_base(base@),
{
    proof {
        crate::text::lemma_rfind_props(base@, '-');
        crate::text::lemma_rfind_props(base@, '.');
    }
    let dash = crate::text::rfind_char(base, '-');
    let dot = crate::text::rfind_char(base, '.');
    let sep: Option<usize> = match (dash, dot) {
        (Some(a), Some(b)) => Some(
            if b > a {
                b
            } else {
                a
            },
        ),
        (Some(a), None) => Some(a),
        (None, Some(b)) => Some(b),
        (None, None) => None,
    };
    proof {
        lemma_rfind_agrees(base@, '-', dash);
        lemma_rfind_agrees(base@, '.', dot);
    }
    let bn: usize = base.len();
    match sep {
        Some(p) => {
            if p + 1 < bn {
                let tail = crate::text::subvec(base, p + 1, bn);
                proof {
                    assert(tail@ =~= base@.skip(p + 1));
                }
                let tail_s = crate::text::string_of_chars(&tail);
                crate::text::upper_str(tail_s.as_str())
            } else {
                crate::text::string_of_chars(base)
            }
        },
        None => crate::text::string_of_chars(base),
    }
}

/// An exec rfind result with the last-occurrence property pins down the
/// spec-level rfind.
proof fn lemma_rfind_agrees(s: Seq<char>, c: char, r: Option<usize>)
    requires
        match r {
            Some(i) => i < s.len() && s[i as int] == c && (forall|k: int|
                i < k < s.len() ==> s[k] != c),
            None => forall|k: int| 0 <= k < s.len() ==> s[k] != c,
        },
    ensures
        match r {
            Some(i) => rfind_char_spec(s, c) == Some(i as int),
            None => rfind_char_spec(s, c) is None,
        },
    decreases s.len(),
{
    lemma_rfind_props(s, c);
    match r {
        Some(i) => {
            match rfind_char_spec(s, c) {
                Some(k) => {
                    if k < i {
                        assert(s[i as int] != c);
                    }
                    if k > i {
                        assert(s[k] != c);
                    }
                },
                None => {
                    assert(s[i as int] != c);
                },
            }
        },
        None => {
            match rfind_char_spec(s, c) {
                Some(k) => {
                    assert(s[k] != c);
                },
                None => {},
            }
        },
    }
}

/// A known label carried anywhere in the uppercased name, first match wins;
/// `Unknown` when none fits.
pub open spec fn spec_quant_fallback(upper: Seq<char>) -> Seq<char> {
    if contains_seq(upper, "IQ4_NL"@) {
        "IQ4_NL"@
    } else
    if contains_seq(upper, "IQ4_XS"@) {
        "IQ4_XS"@
    } else
    if contains_seq(upper, "IQ3_XXS"@) {
        "IQ3_XXS"@
    } else
    if contains_seq(upper, "IQ3_XS"@) {
        "IQ3_XS"@
    } else
    if contains_seq(upper, "IQ3_S"@) {
        "IQ3_S"@
    } else
    if contains_seq(upper, "IQ3_M"@) {
        "IQ3_M"@
    } else
    if contains_seq(upper, "IQ2_XXS"@) {
        "IQ2_XXS"@
    } else
    if contains_seq(upper, "IQ2_XS"@) {
        "IQ2_XS"@
    } else
    if contains_seq(upper, "IQ2_S"@) {
        "IQ2_S"@
    } else
    if contains_seq(upper, "IQ2_M"@) {
        "IQ2_M"@
    } else
    if contains_seq(upper, "IQ1_S"@) {
        "IQ1_S"@
    } else
    if contains_seq(upper, "IQ1_M"@) {
        "IQ1_M"@
    } else
    if contains_seq(upper, "IQ5_K"@) {
        "IQ5_K"@
    } else
    if contains_seq(upper, "IQ5_K_M"@) {
        "IQ5_K_M"@
    } else
    if contains_seq(upper, "IQ5_K_S"@) {
        "IQ5_K_S"@
    } else
    if contains_seq(upper, "IQ6_K"@) {
        "IQ6_K"@
    } else
    if contains_seq(upper, "IQ7_K"@) {
        "IQ7_K"@
    } else
    if contains_seq(upper, "IQ8_K"@) {
        "IQ8_K"@
    } else
    if contains_seq(upper, "MXFP4"@) {
        "MXFP4"@
    } else
    if contains_seq(upper, "MXFP8"@) {
        "MXFP8"@
    } else
    if contains_seq(upper, "Q8_K_M"@) {
        "Q8_K_M"@
    } else
    if contains_seq(upper, "Q8_K_S"@) {
        "Q8_K_S"@
    } else
    if contains_seq(upper, "Q8_K"@) {
        "Q8_K"@
    } else
    if contains_seq(upper, "Q6_K_M"@) {
        "Q6_K_M"@
    } else
    if contains_seq(upper, "Q6_K_S"@) {
        "Q6_K_S"@
    } else
    if contains_seq(upper, "Q6_K"@) {
        "Q6_K"@
    } else
    if contains_seq(upper, "Q5_K_M"@) {
        "Q5_K_M"@
    } else
    if contains_seq(upper, "Q5_K_S"@) {
        "Q5_K_S"@
    } else
    if contains_seq(upper, "Q5_K"@) {
        "Q5_K"@
    } else
    if contains_seq(upper, "Q4_K_M"@) {
        "Q4_K_M"@
    } else
    if contains_seq(upper, "Q4_K_S"@) {
        "Q4_K_S"@
    } else
    if contains_seq(upper, "Q4_K"@) {
        "Q4_K"@
    } else
    if contains_seq(upper, "Q3_K_M"@) {
        "Q3_K_M"@
    } else
    if contains_seq(upper, "Q3_K_S"@) {
        "Q3_K_S"@
    } else
    if contains_seq(upper, "Q3_K_L"@) {
        "Q3_K_L"@
    } else
    if contains_seq(upper, "Q3_K_XL"@) {
        "Q3_K_XL"@
    } else
    if contains_seq(upper, "Q3_K"@) {
        "Q3_K"@
    } else
    if contains_seq(upper, "Q2_K_M"@) {
        "Q2_K_M"@
    } else
    if contains_seq(upper, "Q2_K_S"@) {
        "Q2_K_S"@
    } else
    if contains_seq(upper, "Q2_K"@) {
        "Q2_K"@
    } else
    if contains_seq(upper, "Q8_0"@) {
        "Q8_0"@
    } else
    if contains_seq(upper, "Q6_0"@) {
        "Q6_0"@
    } else
    if contains_seq(upper, "Q5_1"@) {
        "Q5_1"@
    } else
    if contains_seq(upper, "Q5_0"@) {
        "Q5_0"@
    } else
    if contains_seq(upper, "Q4_1"@) {
        "Q4_1"@
    } else
    if contains_seq(upper, "Q4_0"@) {
        "Q4_0"@
    } else
    if contains_seq(upper, "Q3_0"@) {
        "Q3_0"@
    } else
    if contains_seq(upper, "Q2_0"@) {
        "Q2_0"@
    } else
    if contains_seq(upper, "F32"@) {
        "F32"@
    } else
    if contains_seq(upper, "F16"@) {
        "F16"@
    } else
    if contains_seq(upper, "BF16"@) {
        "BF16"@
    } else
    if contains_seq(upper, "Q8"@) {
        "Q8"@
    } else
    if contains_seq(upper, "Q6"@) {
        "Q6"@
    } else
    if contains_seq(upper, "Q5"@) {
        "Q5"@
    } else
    if contains_seq(upper, "Q4"@) {
        "Q4"@
    } else
    if contains_seq(upper, "Q3"@) {
        "Q3"@
    } else
    if contains_seq(upper, "Q2"@) {
        "Q2"@
    } else {
        "Unknown"@
    }
}

/// The quantization label of a model file name.
pub open spec fn spec_get_quantization(filename: Seq<char>) -> Seq<char> {
    match crate::text::find_from(lower_seq(filename), ".gguf"@, 0) {
        Some(pos) => spec_quant_from_base(filename.take(pos)),
        None => spec_quant_fallback(upper_seq(filename)),
    }
}

/// Reads the quantization label out of a model file name.
pub fn get_quantization_from_filename(filename: &str) -> (r: String)
    ensures
        r@ == spec_get_quantization(filename@),
{
    let lower = crate::text::lower_str(filename);
    let lv = crate::text::to_char_vec(lower.as_str());
    let pat = crate::text::to_char_vec(".gguf");
    proof {
        reveal_strlit(".gguf");
    }
    match crate::text::find_sub(&lv, &pat) {
        Some(pos) => {
            proof {
                crate::text::lemma_find_from_found(lower_seq(filename@), ".gguf"@, 0, pos as int);
            }
            let fv = crate::text::to_char_vec(filename);
            let base = crate::text::subvec(&fv, 0, pos);
            proof {
                assert(base@ =~= filename@.take(pos as int));
            }
            quant_from_base(&base)
        },
        None => {
            proof {
                crate::text::lemma_find_from_none(lower_seq(filename@), ".gguf"@, 0);
            }
            let upper = crate::text::upper_str(filename);
            quant_fallback_exec(upper.as_str())
        },
    }
}

fn quant_fallback_exec(upper: &str) -> (r: String)
    ensures
        r@ == spec_quant_fallback(upper@),
{
    if crate::text::contains_str(upper, "IQ4_NL") {
        "IQ4_NL".to_owned()
    } else
    if crate::text::contains_str(upper, "IQ4_XS") {
        "IQ4_XS".to_owned()
    } else
    if crate::text::contains_str(upper, "IQ3_XXS") {
        "IQ3_XXS".to_owned()
    } else
    if crate::text::contains_str(upper, "IQ3_XS") {
        "IQ3_XS".to_owned()
    } else
    if crate::text::contains_str(upper, "IQ3_S") {
        "IQ3_S".to_owned()
    } else
    if crate::text::contains_str(upper, "IQ3_M") {
        "IQ3_M".to_owned()
    } else
    if crate::text::contains_str(upper, "IQ2_XXS") {
        "IQ2_XXS".to_owned()
    } else
    if crate::text::contains_str(upper, "IQ2_XS") {
        "IQ2_XS".to_owned()
    } else
    if crate::text::contains_str(upper, "IQ2_S") {
        "IQ2_S".to_owned()
    } else
    if crate::text::contains_str(upper, "IQ2_M") {
        "IQ2_M".to_owned()
    } else
    if crate::text::contains_str(upper, "IQ1_S") {
        "IQ1_S".to_owned()
    } else
    if crate::text::contains_str(upper, "IQ1_M") {
        "IQ1_M".to_owned()
    } else
    if crate::text::contains_str(upper, "IQ5_K") {
        "IQ5_K".to_owned()
    } else
    if crate::text::contains_str(upper, "IQ5_K_M") {
        "IQ5_K_M".to_owned()
    } else
    if crate::text::contains_str(upper, "IQ5_K_S") {
        "IQ5_K_S".to_owned()
    } else
    if crate::text::contains_str(upper, "IQ6_K") {
        "IQ6_K".to_owned()
    } else
    if crate::text::contains_str(upper, "IQ7_K") {
        "IQ7_K".to_owned()
    } else
    if crate::text::contains_str(upper, "IQ8_K") {
        "IQ8_K".to_owned()
    } else
    if crate::text::contains_str(upper, "MXFP4") {
        "MXFP4".to_owned()
    } else
    if crate::text::contains_str(upper, "MXFP8") {
        "MXFP8".to_owned()
    } else
    if crate::text::contains_str(upper, "Q8_K_M") {
        "Q8_K_M".to_owned()
    } else
    if crate::text::contains_str(upper, "Q8_K_S") {
        "Q8_K_S".to_owned()
    } else
    if crate::text::contains_str(upper, "Q8_K") {
        "Q8_K".to_owned()
    } else
    if crate::text::contains_str(upper, "Q6_K_M") {
        "Q6_K_M".to_owned()
    } else
    if crate::text::contains_str(upper, "Q6_K_S") {
        "Q6_K_S".to_owned()
    } else
    if crate::text::contains_str(upper, "Q6_K") {
        "Q6_K".to_owned()
    } else
    if crate::text::contains_str(upper, "Q5_K_M") {
        "Q5_K_M".to_owned()
    } else
    if crate::text::contains_str(upper, "Q5_K_S") {
        "Q5_K_S".to_owned()
    } else
    if crate::text::contains_str(upper, "Q5_K") {
        "Q5_K".to_owned()
    } else
    if crate::text::contains_str(upper, "Q4_K_M") {
        "Q4_K_M".to_owned()
    } else
    if crate::text::contains_str(upper, "Q4_K_S") {
        "Q4_K_S".to_owned()
    } else
    if crate::text::contains_str(upper, "Q4_K") {
        "Q4_K".to_owned()
    } else
    if crate::text::contains_str(upper, "Q3_K_M") {
        "Q3_K_M".to_owned()
    } else
    if crate::text::contains_str(upper, "Q3_K_S") {
        "Q3_K_S".to_owned()
    } else
    if crate::text::contains_str(upper, "Q3_K_L") {
        "Q3_K_L".to_owned()
    } else
    if crate::text::contains_str(upper, "Q3_K_XL") {
        "Q3_K_XL".to_owned()
    } else
    if crate::text::contains_str(upper, "Q3_K") {
        "Q3_K".to_owned()
    } else
    if crate::text::contains_str(upper, "Q2_K_M") {
        "Q2_K_M".to_owned()
    } else
    if crate::text::contains_str(upper, "Q2_K_S") {
        "Q2_K_S".to_owned()
    } else
    if crate::text::contains_str(upper, "Q2_K") {
        "Q2_K".to_owned()
    } else
    if crate::text::contains_str(upper, "Q8_0") {
        "Q8_0".to_owned()
    } else
    if crate::text::contains_str(upper, "Q6_0") {
        "Q6_0".to_owned()
    } else
    if crate::text::contains_str(upper, "Q5_1") {
        "Q5_1".to_owned()
    } else
    if crate::text::contains_str(upper, "Q5_0") {
        "Q5_0".to_owned()
    } else
    if crate::text::contains_str(upper, "Q4_1") {
        "Q4_1".to_owned()
    } else
    if crate::text::contains_str(upper, "Q4_0") {
        "Q4_0".to_owned()
    } else
    if crate::text::contains_str(upper, "Q3_0") {
        "Q3_0".to_owned()
    } else
    if crate::text::contains_str(upper, "Q2_0") {
        "Q2_0".to_owned()
    } else
    if crate::text::contains_str(upper, "F32") {
        "F32".to_owned()
    } else
    if crate::text::contains_str(upper, "F16") {
        "F16".to_owned()
    } else
    if crate::text::contains_str(upper, "BF16") {
        "BF16".to_owned()
    } else
    if crate::text::contains_str(upper, "Q8") {
        "Q8".to_owned()
    } else
    if crate::text::contains_str(upper, "Q6") {
        "Q6".to_owned()
    } else
    if crate::text::contains_str(upper, "Q5") {
        "Q5".to_owned()
    } else
    if crate::text::contains_str(upper, "Q4") {
        "Q4".to_owned()
    } else
    if crate::text::contains_str(upper, "Q3") {
        "Q3".to_owned()
    } else
    if crate::text::contains_str(upper, "Q2") {
        "Q2".to_owned()
    } else {
        "Unknown".to_owned()
    }
}

/// A known label carried anywhere in the lowercased name, first match wins,
/// reported uppercased; `UNKNOWN` when none fits.
pub open spec fn spec_quant_type_fallback(lower: Seq<char>) -> Seq<char> {
    if contains_seq(lower, "iq4_nl"@) {
        upper_seq("iq4_nl"@)
    } else
    if contains_seq(lower, "iq4_xs"@) {
        upper_seq("iq4_xs"@)
    } else
    if contains_seq(lower, "iq3_xxs"@) {
        upper_seq("iq3_xxs"@)
    } else
    if contains_seq(lower, "iq3_xs"@) {
        upper_seq("iq3_xs"@)
    } else
    if contains_seq(lower, "iq3_s"@) {
        upper_seq("iq3_s"@)
    } else
    if contains_seq(lower, "iq3_m"@) {
        upper_seq("iq3_m"@)
    } else
    if contains_seq(lower, "iq2_xxs"@) {
        upper_seq("iq2_xxs"@)
    } else
    if contains_seq(lower, "iq2_xs"@) {
        upper_seq("iq2_xs"@)
    } else
    if contains_seq(lower, "iq2_s"@) {
        upper_seq("iq2_s"@)
    } else
    if contains_seq(lower, "iq2_m"@) {
        upper_seq("iq2_m"@)
    } else
    if contains_seq(lower, "iq1_s"@) {
        upper_seq("iq1_s"@)
    } else
    if contains_seq(lower, "iq1_m"@) {
        upper_seq("iq1_m"@)
    } else
    if contains_seq(lower, "q8_k_m"@) {
        upper_seq("q8_k_m"@)
    } else
    if contains_seq(lower, "q8_k_s"@) {
        upper_seq("q8_k_s"@)
    } else
    if contains_seq(lower, "q8_k"@) {
        upper_seq("q8_k"@)
    } else
    if contains_seq(lower, "q6_k_m"@) {
        upper_seq("q6_k_m"@)
    } else
    if contains_seq(lower, "q6_k_s"@) {
        upper_seq("q6_k_s"@)
    } else
    if contains_seq(lower, "q6_k"@) {
        upper_seq("q6_k"@)
    } else
    if contains_seq(lower, "q5_k_m"@) {
        upper_seq("q5_k_m"@)
    } else
    if contains_seq(lower, "q5_k_s"@) {
        upper_seq("q5_k_s"@)
    } else
    if contains_seq(lower, "q5_k"@) {
        upper_seq("q5_k"@)
    } else
    if contains_seq(lower, "q4_k_m"@) {
        upper_seq("q4_k_m"@)
    } else
    if contains_seq(lower, "q4_k_s"@) {
        upper_seq("q4_k_s"@)
    } else
    if contains_seq(lower, "q4_k"@) {
        upper_seq("q4_k"@)
    } else
    if contains_seq(lower, "q3_k_m"@) {
        upper_seq("q3_k_m"@)
    } else
    if contains_seq(lower, "q3_k_s"@) {
        upper_seq("q3_k_s"@)
    } else
    if contains_seq(lower, "q3_k_l"@) {
        upper_seq("q3_k_l"@)
    } else
    if contains_seq(lower, "q3_k"@) {
        upper_seq("q3_k"@)
    } else
    if contains_seq(lower, "q2_k_m"@) {
        upper_seq("q2_k_m"@)
    } else
    if contains_seq(lower, "q2_k_s"@) {
        upper_seq("q2_k_s"@)
    } else
    if contains_seq(lower, "q2_k"@) {
        upper_seq("q2_k"@)
    } else
    if contains_seq(lower, "q8_0"@) {
        upper_seq("q8_0"@)
    } else
    if contains_seq(lower, "q6_0"@) {
        upper_seq("q6_0"@)
    } else
    if contains_seq(lower, "q5_1"@) {
        upper_seq("q5_1"@)
    } else
    if contains_seq(lower, "q5_0"@) {
        upper_seq("q5_0"@)
    } else
    if contains_seq(lower, "q4_1"@) {
        upper_seq("q4_1"@)
    } else
    if contains_seq(lower, "q4_0"@) {
        upper_seq("q4_0"@)
    } else
    if contains_seq(lower, "q3_0"@) {
        upper_seq("q3_0"@)
    } else
    if contains_seq(lower, "q2_0"@) {
        upper_seq("q2_0"@)
    } else
    if contains_seq(lower, "fp16"@) {
        upper_seq("fp16"@)
    } else
    if contains_seq(lower, "f16"@) {
        upper_seq("f16"@)
    } else
    if contains_seq(lower, "f32"@) {
        upper_seq("f32"@)
    } else
    if contains_seq(lower, "bf16"@) {
        upper_seq("bf16"@)
    } else {
        "UNKNOWN"@
    }
}

/// The quantization label of a catalog file path, when one can be read.
pub open spec fn spec_extract_quantization_type(filename: Seq<char>) -> Seq<char> {
    match crate::text::find_from(lower_seq(filename), ".gguf"@, 0) {
        Some(pos) => spec_quant_from_base(filename.take(pos)),
        None => spec_quant_type_fallback(lower_seq(filename)),
    }
}

/// Reads the quantization label out of a catalog file path.
pub fn extract_quantization_type(filename: &str) -> (r: Option<String>)
    ensures
        (r matches Some(q) && q@ == spec_extract_quantization_type(filename@)),
{
    let lower = crate::text::lower_str(filename);
    let lv = crate::text::to_char_vec(lower.as_str());
    let pat = crate::text::to_char_vec(".gguf");
    proof {
        reveal_strlit(".gguf");
    }
    match crate::text::find_sub(&lv, &pat) {
        Some(pos) => {
            proof {
                crate::text::lemma_find_from_found(lower_seq(filename@), ".gguf"@, 0, pos as int);
            }
            let fv = crate::text::to_char_vec(filename);
            let base = crate::text::subvec(&fv, 0, pos);
            proof {
                assert(base@ =~= filename@.take(pos as int));
            }
            Some(quant_from_base(&base))
        },
        None => {
            proof {
                crate::text::lemma_find_from_none(lower_seq(filename@), ".gguf"@, 0);
            }
            Some(quant_type_fallback_exec(lower.as_str()))
        },
    }
}

fn quant_type_fallback_exec(lower: &str) -> (r: String)
    ensures
        r@ == spec_quant_type_fallback(lower@),
{
    if crate::text::contains_str(lower, "iq4_nl") {
        crate::text::upper_str("iq4_nl")
    } else
    if crate::text::contains_str(lower, "iq4_xs") {
        crate::text::upper_str("iq4_xs")
    } else
    if crate::text::contains_str(lower, "iq3_xxs") {
        crate::text::upper_str("iq3_xxs")
    } else
    if crate::text::contains_str(lower, "iq3_xs") {
        crate::text::upper_str("iq3_xs")
    } else
    if crate::text::contains_str(lower, "iq3_s") {
        crate::text::upper_str("iq3_s")
    } else
    if crate::text::contains_str(lower, "iq3_m") {
        crate::text::upper_str("iq3_m")
    } else
    if crate::text::contains_str(lower, "iq2_xxs") {
        crate::text::upper_str("iq2_xxs")
    } else
    if crate::text::contains_str(lower, "iq2_xs") {
        crate::text::upper_str("iq2_xs")
    } else
    if crate::text::contains_str(lower, "iq2_s") {
        crate::text::upper_str("iq2_s")
    } else
    if crate::text::contains_str(lower, "iq2_m") {
        crate::text::upper_str("iq2_m")
    } else
    if crate::text::contains_str(lower, "iq1_s") {
        crate::text::upper_str("iq1_s")
    } else
    if crate::text::contains_str(lower, "iq1_m") {
        crate::text::upper_str("iq1_m")
    } else
    if crate::text::contains_str(lower, "q8_k_m") {
        crate::text::upper_str("q8_k_m")
    } else
    if crate::text::contains_str(lower, "q8_k_s") {
        crate::text::upper_str("q8_k_s")
    } else
    if crate::text::contains_str(lower, "q8_k") {
        crate::text::upper_str("q8_k")
    } else
    if crate::text::contains_str(lower, "q6_k_m") {
        crate::text::upper_str("q6_k_m")
    } else
    if crate::text::contains_str(lower, "q6_k_s") {
        crate::text::upper_str("q6_k_s")
    } else
    if crate::text::contains_str(lower, "q6_k") {
        crate::text::upper_str("q6_k")
    } else
    if crate::text::contains_str(lower, "q5_k_m") {
        crate::text::upper_str("q5_k_m")
    } else
    if crate::text::contains_str(lower, "q5_k_s") {
        crate::text::upper_str("q5_k_s")
    } else
    if crate::text::contains_str(lower, "q5_k") {
        crate::text::upper_str("q5_k")
    } else
    if crate::text::contains_str(lower, "q4_k_m") {
        crate::text::upper_str("q4_k_m")
    } else
    if crate::text::contains_str(lower, "q4_k_s") {
        crate::text::upper_str("q4_k_s")
    } else
    if crate::text::contains_str(lower, "q4_k") {
        crate::text::upper_str("q4_k")
    } else
    if crate::text::contains_str(lower, "q3_k_m") {
        crate::text::upper_str("q3_k_m")
    } else
    if crate::text::contains_str(lower, "q3_k_s") {
        crate::text::upper_str("q3_k_s")
    } else
    if crate::text::contains_str(lower, "q3_k_l") {
        crate::text::upper_str("q3_k_l")
    } else
    if crate::text::contains_str(lower, "q3_k") {
        crate::text::upper_str("q3_k")
    } else
    if crate::text::contains_str(lower, "q2_k_m") {
        crate::text::upper_str("q2_k_m")
    } else
    if crate::text::contains_str(lower, "q2_k_s") {
        crate::text::upper_str("q2_k_s")
    } else
    if crate::text::contains_str(lower, "q2_k") {
        crate::text::upper_str("q2_k")
    } else
    if crate::text::contains_str(lower, "q8_0") {
        crate::text::upper_str("q8_0")
    } else
    if crate::text::contains_str(lower, "q6_0") {
        crate::text::upper_str("q6_0")
    } else
    if crate::text::contains_str(lower, "q5_1") {
        crate::text::upper_str("q5_1")
    } else
    if crate::text::contains_str(lower, "q5_0") {
        crate::text::upper_str("q5_0")
    } else
    if crate::text::contains_str(lower, "q4_1") {
        crate::text::upper_str("q4_1")
    } else
    if crate::text::contains_str(lower, "q4_0") {
        crate::text::upper_str("q4_0")
    } else
    if crate::text::contains_str(lower, "q3_0") {
        crate::text::upper_str("q3_0")
    } else
    if crate::text::contains_str(lower, "q2_0") {
        crate::text::upper_str("q2_0")
    } else
    if crate::text::contains_str(lower, "fp16") {
        crate::text::upper_str("fp16")
    } else
    if crate::text::contains_str(lower, "f16") {
        crate::text::upper_str("f16")
    } else
    if crate::text::contains_str(lower, "f32") {
        crate::text::upper_str("f32")
    } else
    if crate::text::contains_str(lower, "bf16") {
        crate::text::upper_str("bf16")
    } else {
        "UNKNOWN".to_owned()
    }
}

} // verus!
