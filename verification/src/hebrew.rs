//! Hebrew composition: canonical composition, and the presentation forms
//! that normalization leaves out but old fonts want.
use vstd::prelude::*;
use crate::glyph::{is_scalar, char_from_u32};

verus! {

/// The code point of the canonical composition of the characters `a` and
/// `b` that `unicode_normalization::char::compose` computes (a primary
/// composite of the two, if one exists).
pub uninterp spec fn canonical_composition(a: u32, b: u32) -> Option<u32>;

/// Calls `unicode_normalization::char::compose`, a function of its two
/// arguments alone that does not panic, and gives the code point of its
/// result; the contract names that result and claims nothing more of it.
#[verifier::external_body]
pub(crate) fn compose_pair(a: char, b: char) -> (r: Option<u32>)
    ensures
        r == canonical_composition(a as u32, b as u32),
{
    match unicode_normalization::char::compose(a, b) {
        Some(c) => Some(c as u32),
        None => None,
    }
}

/// The presentation forms with dagesh of the letters U+05D0 to U+05EA; 0
/// where none is encoded.
pub const S_DAGESH_FORMS: [u32; 27] = [
    0xFB30, 0xFB31, 0xFB32, 0xFB33, 0xFB34, 0xFB35, 0xFB36, 0x0000, 0xFB38, 0xFB39, 0xFB3A,
    0xFB3B, 0xFB3C, 0x0000, 0xFB3E, 0x0000, 0xFB40, 0xFB41, 0x0000, 0xFB43, 0xFB44, 0x0000,
    0xFB46, 0xFB47, 0xFB48, 0xFB49, 0xFB4A,
];

/// The Hebrew presentation form of letter `a` with mark `b` that standard
/// normalization leaves out, if there is one.
pub open spec fn hebrew_presentation(a: u32, b: u32) -> Option<u32> {
    if b == 0x05B4 {
        // hiriq
        if a == 0x05D9 {
            Some(0xFB1Du32)
        } else {
            None
        }
    } else if b == 0x05B7 {
        // patah
        if a == 0x05D9 {
            Some(0xFB1Fu32)
        } else if a == 0x05D0 {
            Some(0xFB2Eu32)
        } else {
            None
        }
    } else if b == 0x05B8 {
        // qamats
        if a == 0x05D0 {
            Some(0xFB2Fu32)
        } else {
            None
        }
    } else if b == 0x05B9 {
        // holam
        if a == 0x05D5 {
            Some(0xFB4Bu32)
        } else {
            None
        }
    } else if b == 0x05BC {
        // dagesh
        if 0x05D0 <= a <= 0x05EA {
            if S_DAGESH_FORMS@[a - 0x05D0] != 0 {
                Some(S_DAGESH_FORMS@[a - 0x05D0])
            } else {
                None
            }
        } else if a == 0xFB2A {
            Some(0xFB2Cu32)
        } else if a == 0xFB2B {
            Some(0xFB2Du32)
        } else {
            None
        }
    } else if b == 0x05BF {
        // rafe
        if a == 0x05D1 {
            Some(0xFB4Cu32)
        } else if a == 0x05DB {
            Some(0xFB4Du32)
        } else if a == 0x05E4 {
            Some(0xFB4Eu32)
        } else {
            None
        }
    } else if b == 0x05C1 {
        // shin dot
        if a == 0x05E9 {
            Some(0xFB2Au32)
        } else if a == 0xFB49 {
            Some(0xFB2Cu32)
        } else {
            None
        }
    } else if b == 0x05C2 {
        // sin dot
        if a == 0x05E9 {
            Some(0xFB2Bu32)
        } else if a == 0xFB49 {
            Some(0xFB2Du32)
        } else {
            None
        }
    } else {
        None
    }
}

/// The Hebrew composition of `a` and `b`, given their canonical composition
/// `canonical`: that one if there is one, else (unless the font positions
/// marks) the presentation form that old fonts want.
pub open spec fn hebrew_composition(
    has_gpos_mark: bool,
    a: u32,
    b: u32,
    canonical: Option<u32>,
) -> Option<u32> {
    match canonical {
        Some(c) => Some(c),
        None => if has_gpos_mark {
            None
        } else {
            hebrew_presentation(a, b)
        },
    }
}

/// The presentation forms of Hebrew letters with points that the Unicode
/// presentation-forms block encodes and old fonts want, by letter and
/// point: yod with hiriq, yod and alef with patah, alef with qamats, vav
/// with holam, the letters with dagesh, bet, kaf and pe with rafe, and shin
/// with its dots.
pub open spec fn presentation_form_table() -> Map<(u32, u32), u32> {
    map![
        (0x05D9u32, 0x05B4u32) => 0xFB1Du32,
        (0x05D9u32, 0x05B7u32) => 0xFB1Fu32,
        (0x05D0u32, 0x05B7u32) => 0xFB2Eu32,
        (0x05D0u32, 0x05B8u32) => 0xFB2Fu32,
        (0x05D5u32, 0x05B9u32) => 0xFB4Bu32,
        (0x05D0u32, 0x05BCu32) => 0xFB30u32,
        (0x05D1u32, 0x05BCu32) => 0xFB31u32,
        (0x05D2u32, 0x05BCu32) => 0xFB32u32,
        (0x05D3u32, 0x05BCu32) => 0xFB33u32,
        (0x05D4u32, 0x05BCu32) => 0xFB34u32,
        (0x05D5u32, 0x05BCu32) => 0xFB35u32,
        (0x05D6u32, 0x05BCu32) => 0xFB36u32,
        (0x05D8u32, 0x05BCu32) => 0xFB38u32,
        (0x05D9u32, 0x05BCu32) => 0xFB39u32,
        (0x05DAu32, 0x05BCu32) => 0xFB3Au32,
        (0x05DBu32, 0x05BCu32) => 0xFB3Bu32,
        (0x05DCu32, 0x05BCu32) => 0xFB3Cu32,
        (0x05DEu32, 0x05BCu32) => 0xFB3Eu32,
        (0x05E0u32, 0x05BCu32) => 0xFB40u32,
        (0x05E1u32, 0x05BCu32) => 0xFB41u32,
        (0x05E3u32, 0x05BCu32) => 0xFB43u32,
        (0x05E4u32, 0x05BCu32) => 0xFB44u32,
        (0x05E6u32, 0x05BCu32) => 0xFB46u32,
        (0x05E7u32, 0x05BCu32) => 0xFB47u32,
        (0x05E8u32, 0x05BCu32) => 0xFB48u32,
        (0x05E9u32, 0x05BCu32) => 0xFB49u32,
        (0x05EAu32, 0x05BCu32) => 0xFB4Au32,
        (0xFB2Au32, 0x05BCu32) => 0xFB2Cu32,
        (0xFB2Bu32, 0x05BCu32) => 0xFB2Du32,
        (0x05D1u32, 0x05BFu32) => 0xFB4Cu32,
        (0x05DBu32, 0x05BFu32) => 0xFB4Du32,
        (0x05E4u32, 0x05BFu32) => 0xFB4Eu32,
        (0x05E9u32, 0x05C1u32) => 0xFB2Au32,
        (0xFB49u32, 0x05C1u32) => 0xFB2Cu32,
        (0x05E9u32, 0x05C2u32) => 0xFB2Bu32,
        (0xFB49u32, 0x05C2u32) => 0xFB2Du32
    ]
}

/// Hebrew composition: a canonical composition always wins; without one, a
/// font that does not position marks gets exactly the presentation form of
/// the letter and point pair, where the table has one, and nothing else; a
/// font that positions marks gets nothing.
pub proof fn lemma_hebrew_composition(a: u32, b: u32, c: u32, has_gpos_mark: bool)
    ensures
        hebrew_composition(has_gpos_mark, a, b, Some(c)) == Some(c),
        hebrew_composition(true, a, b, None) is None,
        hebrew_composition(false, a, b, None) == (if presentation_form_table().contains_key((a, b)) {
            Some(presentation_form_table()[(a, b)])
        } else {
            None
        }),
{
    let t = presentation_form_table();
    assert(S_DAGESH_FORMS@ =~= seq![0xFB30u32, 0xFB31u32, 0xFB32u32, 0xFB33u32, 0xFB34u32, 0xFB35u32, 0xFB36u32, 0x0000u32, 0xFB38u32, 0xFB39u32, 0xFB3Au32, 0xFB3Bu32, 0xFB3Cu32, 0x0000u32, 0xFB3Eu32, 0x0000u32, 0xFB40u32, 0xFB41u32, 0x0000u32, 0xFB43u32, 0xFB44u32, 0x0000u32, 0xFB46u32, 0xFB47u32, 0xFB48u32, 0xFB49u32, 0xFB4Au32]);
    if hebrew_presentation(a, b) is Some {
        assert(t.contains_key((a, b)));
    }
    if t.contains_key((a, b)) {
        assert(hebrew_presentation(a, b) == Some(t[(a, b)]));
    }
}

/// Composes `a` and `b` given their canonical composition `canonical`.
pub fn compose_with(has_gpos_mark: bool, a: u32, b: u32, canonical: Option<u32>) -> (r: Option<
    u32,
>)
    ensures
        r == hebrew_composition(has_gpos_mark, a, b, canonical),
{
    match canonical {
        Some(c) => return Some(c),
        None => {},
    }
    if has_gpos_mark {
        return None;
    }
    let mut ab: Option<u32> = None;
    if b == 0x05B4 {
        if a == 0x05D9 {
            ab = Some(0xFB1D);
        }
    } else if b == 0x05B7 {
        if a == 0x05D9 {
            ab = Some(0xFB1F);
        } else if a == 0x05D0 {
            ab = Some(0xFB2E);
        }
    } else if b == 0x05B8 {
        if a == 0x05D0 {
            ab = Some(0xFB2F);
        }
    } else if b == 0x05B9 {
        if a == 0x05D5 {
            ab = Some(0xFB4B);
        }
    } else if b == 0x05BC {
        if 0x05D0 <= a && a <= 0x05EA {
            let c = S_DAGESH_FORMS[(a - 0x05D0) as usize];
            if c != 0x0000 {
                ab = Some(c);
            }
        } else if a == 0xFB2A {
            ab = Some(0xFB2C);
        } else if a == 0xFB2B {
            ab = Some(0xFB2D);
        }
    } else if b == 0x05BF {
        if a == 0x05D1 {
            ab = Some(0xFB4C);
        } else if a == 0x05DB {
            ab = Some(0xFB4D);
        } else if a == 0x05E4 {
            ab = Some(0xFB4E);
        }
    } else if b == 0x05C1 {
        if a == 0x05E9 {
            ab = Some(0xFB2A);
        } else if a == 0xFB49 {
            ab = Some(0xFB2C);
        }
    } else if b == 0x05C2 {
        if a == 0x05E9 {
            ab = Some(0xFB2B);
        } else if a == 0xFB49 {
            ab = Some(0xFB2D);
        }
    }
    ab
}

/// Composes the characters `a` and `b` for Hebrew: their canonical
/// composition, or, where there is none and the font does not position
/// marks, the presentation form that old fonts want.
pub fn compose(has_gpos_mark: bool, a: u32, b: u32) -> (r: Option<u32>)
    requires
        is_scalar(a),
        is_scalar(b),
    ensures
        r == hebrew_composition(has_gpos_mark, a, b, canonical_composition(a, b)),
{
    let a_char = match char_from_u32(a) {
        Some(c) => c,
        None => {
            return None;
        },
    };
    let b_char = match char_from_u32(b) {
        Some(c) => c,
        None => {
            return None;
        },
    };
    compose_with(has_gpos_mark, a, b, compose_pair(a_char, b_char))
}

} // verus!
