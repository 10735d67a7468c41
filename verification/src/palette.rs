//! Terminal colour depth.

use vstd::prelude::*;

use crate::text::{ascii_lower, ascii_lower_chars, chars_of, contains_chars, contains_seq};

verus! {

/// How many colours the terminal can show.
#[derive(Clone, Copy, Debug, PartialEq, Eq, Structural)]
pub enum ColorDepth {
    TrueColor,
    Color256,
    Color16,
}

/// Depth implied by the `COLORTERM` and `TERM` values: `truecolor`/`24bit`
/// (any ASCII case) means 24-bit colour, a `TERM` mentioning `256color`
/// means the 256-colour palette, anything else the 16 base colours.
pub open spec fn depth_from_spec(colorterm: Seq<char>, term: Seq<char>) -> ColorDepth {
    let ct = ascii_lower(colorterm);
    if ct == "truecolor"@ || ct == "24bit"@ {
        ColorDepth::TrueColor
    } else if contains_seq(term, "256color"@) {
        ColorDepth::Color256
    } else {
        ColorDepth::Color16
    }
}

/// Whether two character vectors are equal.
fn chars_eq(a: &Vec<char>, b: &Vec<char>) -> (r: bool)
    ensures
        r == (a@ == b@),
{
    if a.len() != b.len() {
        return false;
    }
    let mut i: usize = 0;
    while i < a.len()
        invariant
            i <= a.len(),
            a.len() == b.len(),
            forall|k: int| 0 <= k < i ==> a@[k] == b@[k],
        decreases a.len() - i,
    {
        if a[i] != b[i] {
            assert(a@[i as int] != b@[i as int]);
            return false;
        }
        i = i + 1;
    }
    assert(a@ =~= b@);
    true
}

impl ColorDepth {
    /// Colour depth from the values of `COLORTERM` and `TERM` (empty when unset).
    pub fn from_env_values(colorterm: &str, term: &str) -> (r: ColorDepth)
        ensures
            r == depth_from_spec(colorterm@, term@),
    {
        let ct = ascii_lower_chars(colorterm);
        let tc = chars_of("truecolor");
        let b24 = chars_of("24bit");
        if chars_eq(&ct, &tc) || chars_eq(&ct, &b24) {
            return ColorDepth::TrueColor;
        }
        let t = chars_of(term);
        let needle = chars_of("256color");
        if contains_chars(&t, &needle) {
            ColorDepth::Color256
        } else {
            ColorDepth::Color16
        }
    }
}

/// `COLORTERM` decides first: `truecolor` or `24bit` in any ASCII case means
/// 24-bit colour whatever `TERM` says. Otherwise a `TERM` mentioning
/// `256color` gives the 256-colour palette, and anything else the 16 base
/// colours; `TERM` matters only when `COLORTERM` does not announce 24-bit.
pub proof fn lemma_colorterm_first(colorterm: Seq<char>, term: Seq<char>, other_term: Seq<char>)
    ensures
        ascii_lower(colorterm) == "truecolor"@ || ascii_lower(colorterm) == "24bit"@ ==> depth_from_spec(
            colorterm,
            term,
        ) == ColorDepth::TrueColor && depth_from_spec(colorterm, other_term) == ColorDepth::TrueColor,
        ascii_lower(colorterm) != "truecolor"@ && ascii_lower(colorterm) != "24bit"@ ==> depth_from_spec(
            colorterm,
            term,
        ) != ColorDepth::TrueColor,
        ascii_lower(colorterm) != "truecolor"@ && ascii_lower(colorterm) != "24bit"@ && contains_seq(
            term,
            "256color"@,
        ) ==> depth_from_spec(colorterm, term) == ColorDepth::Color256,
        ascii_lower(colorterm) != "truecolor"@ && ascii_lower(colorterm) != "24bit"@ && !contains_seq(
            term,
            "256color"@,
        ) ==> depth_from_spec(colorterm, term) == ColorDepth::Color16,
{
}

} // verus!
