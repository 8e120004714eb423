//! Enumeration of the candidate characters that a glyph cache is built from.

use vstd::prelude::*;

verus! {

/// A code point below 0x100 is a control character exactly when it lies in
/// the C0 range (below 0x20) or in 0x7F..=0x9F (DEL together with the C1
/// range).
pub open spec fn spec_is_latin1_control(code: int) -> bool {
    code < 0x20 || (0x7F <= code && code <= 0x9F)
}

/// Decides whether a code point in the Latin-1 range is a control character.
pub fn latin1_is_control(code: u32) -> (r: bool)
    ensures
        r == spec_is_latin1_control(code as int),
{
    code < 0x20 || (0x7F <= code && code <= 0x9F)
}

/// A code point that denotes a Unicode scalar value: anything up to
/// 0x10FFFF except the surrogate range 0xD800..=0xDFFF.
pub open spec fn spec_is_scalar_value(code: int) -> bool {
    0 <= code <= 0x10FFFF && !(0xD800 <= code && code <= 0xDFFF)
}

/// Relies on char::from_u32: it returns Some exactly for Unicode scalar
/// values, and the character returned carries the given code point.
#[verifier::external_body]
fn char_from_code(code: u32) -> (r: Option<char>)
    ensures
        r is Some <==> spec_is_scalar_value(code as int),
        (r matches Some(c) ==> c as int == code as int),
{
    char::from_u32(code)
}

/// Which characters the cache builder offers to the font: every non-control
/// code point below 255, or every Unicode scalar value.
pub enum CharSet {
    Ascii,
    FullUnicode,
}

/// Whether a code point belongs to the candidate enumeration of a policy.
pub open spec fn spec_is_candidate(set: CharSet, code: int) -> bool {
    match set {
        CharSet::Ascii => 0 <= code < 255 && !spec_is_latin1_control(code),
        CharSet::FullUnicode => spec_is_scalar_value(code),
    }
}

/// Decides whether a code point belongs to the candidate enumeration.
pub fn is_candidate(set: &CharSet, code: u32) -> (r: bool)
    ensures
        r == spec_is_candidate(*set, code as int),
{
    match set {
        CharSet::Ascii => code < 255 && !latin1_is_control(code),
        CharSet::FullUnicode => code <= 0x10FFFF && !(0xD800 <= code && code <= 0xDFFF),
    }
}

/// The candidate characters of a policy, in ascending code-point order:
/// every character the enumeration admits appears exactly once.
pub fn candidates(set: &CharSet) -> (v: Vec<char>)
    ensures
        forall|k: int| 0 <= k < v@.len() ==> spec_is_candidate(*set, #[trigger] v@[k] as int),
        forall|k1: int, k2: int|
            0 <= k1 < k2 < v@.len() ==> (v@[k1] as int) < (v@[k2] as int),
        forall|c: char| spec_is_candidate(*set, c as int) ==> v@.contains(c),
{
    let mut v: Vec<char> = Vec::new();
    let mut code: u32 = 0;
    while code < 0x110000
        invariant
            code <= 0x110000,
            forall|k: int| 0 <= k < v@.len() ==> spec_is_candidate(*set, #[trigger] v@[k] as int),
            forall|k: int| 0 <= k < v@.len() ==> (#[trigger] v@[k] as int) < code as int,
            forall|k1: int, k2: int|
                0 <= k1 < k2 < v@.len() ==> (v@[k1] as int) < (v@[k2] as int),
            forall|c: char|
                spec_is_candidate(*set, c as int) && (c as int) < code as int ==> v@.contains(c),
        decreases 0x110000 - code,
    {
        if is_candidate(set, code) {
            match char_from_code(code) {
                Some(c) => {
                    let ghost prefix = v@;
                    v.push(c);
                    proof {
                        assert forall|d: char|
                            spec_is_candidate(*set, d as int) && (d as int) < code as int
                                + 1 implies v@.contains(d) by {
                            if (d as int) < code as int {
                                assert(prefix.contains(d));
                                let j = choose|j: int| 0 <= j < prefix.len() && prefix[j] == d;
                                assert(v@[j] == d);
                            } else {
                                assert(d == c);
                                assert(v@[prefix.len() as int] == c);
                            }
                        }
                    }
                },
                None => {
                    proof {
                        assert(false);
                    }
                },
            }
        }
        code = code + 1;
    }
    v
}

/// The candidate characters of the ASCII enumeration policy: every
/// non-control code point below 255, in ascending order.
pub fn ascii() -> (v: Vec<char>)
    ensures
        forall|k: int|
            0 <= k < v@.len() ==> spec_is_candidate(CharSet::Ascii, #[trigger] v@[k] as int),
        forall|k1: int, k2: int|
            0 <= k1 < k2 < v@.len() ==> (v@[k1] as int) < (v@[k2] as int),
        forall|c: char| spec_is_candidate(CharSet::Ascii, c as int) ==> v@.contains(c),
{
    candidates(&CharSet::Ascii)
}

} // verus!
