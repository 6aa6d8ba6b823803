//! Myanmar character properties: the Indic category and position of a
//! character, adjusted to the Myanmar rules.
//!
//! The Indic categories below C to CS are those of the Indic syllable
//! grammar (see `complex::indic_machine`); the vowel categories and the
//! positions follow the same numbering, in which positions ascend from the
//! start of a syllable to its end.
use vstd::prelude::*;
use crate::complex::indic_machine::{A, C, H, M, PLACEHOLDER, RA, SM};

verus! {

/// Indic category of an above-base vowel.
pub const V_AVB: u8 = 20;
/// Indic category of a below-base vowel.
pub const V_BLW: u8 = 21;
/// Indic category of a pre-base vowel.
pub const V_PRE: u8 = 22;
/// Indic category of a post-base vowel.
pub const V_PST: u8 = 23;

/// Myanmar category of the Asat.
pub const MY_AS: u8 = 18;
/// Myanmar category of a generic base.
pub const MY_GB: u8 = PLACEHOLDER;
/// Myanmar category of a digit other than zero.
pub const MY_D: u8 = MY_GB;
/// Myanmar categories of the consonant medials.
pub const MY_MH: u8 = 21;
pub const MY_MR: u8 = 22;
pub const MY_MW: u8 = 23;
pub const MY_MY: u8 = 24;
pub const MY_ML: u8 = 32;
/// Myanmar category of the Pwo and other tones.
pub const MY_PT: u8 = 25;
/// Myanmar category of a variation selector.
pub const MY_VS: u8 = 30;
/// Myanmar category of punctuation.
pub const MY_P: u8 = 31;

/// Position of a pre-base matra.
pub const POS_PRE_M: u8 = 2;
/// Position of a pre-base consonant.
pub const POS_PRE_C: u8 = 3;
/// Position above the base.
pub const POS_ABOVE_C: u8 = 6;
/// Position below the base.
pub const POS_BELOW_C: u8 = 8;
/// Position after the base.
pub const POS_POST_C: u8 = 11;

/// The Myanmar category of `u`, whose Indic category is `cat`: the Myanmar
/// rules override the Indic tables for the characters they name.
pub open spec fn myanmar_category(u: u32, cat: u8) -> u8 {
    if u == 0x104E || u == 0xAA74 || u == 0xAA75 || u == 0xAA76 {
        C
    } else if u == 0x002D || u == 0x00A0 || u == 0x00D7 || (0x2012 <= u <= 0x2015) || u == 0x2022
        || u == 0x25CC || (0x25FB <= u <= 0x25FE) {
        MY_GB
    } else if u == 0x1004 || u == 0x101B || u == 0x105A {
        RA
    } else if u == 0x1032 || u == 0x1036 {
        A
    } else if u == 0x1039 {
        H
    } else if u == 0x103A {
        MY_AS
    } else if (0x1040 <= u <= 0x1049) || (0x1090 <= u <= 0x1099) {
        MY_D
    } else if u == 0x103E {
        MY_MH
    } else if u == 0x1060 {
        MY_ML
    } else if u == 0x103C {
        MY_MR
    } else if u == 0x103D || u == 0x1082 {
        MY_MW
    } else if u == 0x103B || u == 0x105E || u == 0x105F {
        MY_MY
    } else if u == 0x1063 || u == 0x1064 || (0x1069 <= u <= 0x106D) || u == 0xAA7B {
        MY_PT
    } else if u == 0x1038 || (0x1087 <= u <= 0x108D) || u == 0x108F || (0x109A <= u <= 0x109C) {
        SM
    } else if u == 0x104A || u == 0x104B {
        MY_P
    } else if 0xFE00 <= u <= 0xFE0F {
        MY_VS
    } else {
        cat
    }
}

/// The Myanmar category and position of `u`, given its Indic category `cat`
/// and position `pos`: a matra becomes the vowel of its position, and a
/// pre-base matra moves to the pre-matra position.
pub open spec fn myanmar_properties_spec(u: u32, cat: u8, pos: u8) -> (u8, u8) {
    let c = myanmar_category(u, cat);
    if c == M {
        if pos == POS_PRE_C {
            (V_PRE, POS_PRE_M)
        } else if pos == POS_BELOW_C {
            (V_BLW, pos)
        } else if pos == POS_ABOVE_C {
            (V_AVB, pos)
        } else if pos == POS_POST_C {
            (V_PST, pos)
        } else {
            (c, pos)
        }
    } else {
        (c, pos)
    }
}

/// The Myanmar category and position of character `u`, from its Indic
/// category `cat` and position `pos` (see `myanmar_properties_spec`).
pub fn myanmar_properties(u: u32, cat: u8, pos: u8) -> (r: (u8, u8))
    ensures
        r == myanmar_properties_spec(u, cat, pos),
{
    let mut cat = cat;
    let mut pos = pos;
    if 0xFE00 <= u && u <= 0xFE0F {
        cat = MY_VS;
    }
    match u {
        0x104E => cat = C,
        0x002D | 0x00A0 | 0x00D7 | 0x2012 | 0x2013 | 0x2014 | 0x2015 | 0x2022 | 0x25CC
        | 0x25FB | 0x25FC | 0x25FD | 0x25FE => cat = MY_GB,
        0x1004 | 0x101B | 0x105A => cat = RA,
        0x1032 | 0x1036 => cat = A,
        0x1039 => cat = H,
        0x103A => cat = MY_AS,
        0x1041 | 0x1042 | 0x1043 | 0x1044 | 0x1045 | 0x1046 | 0x1047 | 0x1048 | 0x1049
        | 0x1090 | 0x1091 | 0x1092 | 0x1093 | 0x1094 | 0x1095 | 0x1096 | 0x1097 | 0x1098
        | 0x1099 => cat = MY_D,
        0x1040 => cat = MY_D,
        0x103E => cat = MY_MH,
        0x1060 => cat = MY_ML,
        0x103C => cat = MY_MR,
        0x103D | 0x1082 => cat = MY_MW,
        0x103B | 0x105E | 0x105F => cat = MY_MY,
        0x1063 | 0x1064 | 0x1069 | 0x106A | 0x106B | 0x106C | 0x106D | 0xAA7B => cat = MY_PT,
        0x1038 | 0x1087 | 0x1088 | 0x1089 | 0x108A | 0x108B | 0x108C | 0x108D | 0x108F
        | 0x109A | 0x109B | 0x109C => cat = SM,
        0x104A | 0x104B => cat = MY_P,
        0xAA74 | 0xAA75 | 0xAA76 => cat = C,
        _ => {},
    }
    if cat == M {
        if pos == POS_PRE_C {
            cat = V_PRE;
            pos = POS_PRE_M;
        } else if pos == POS_BELOW_C {
            cat = V_BLW;
        } else if pos == POS_ABOVE_C {
            cat = V_AVB;
        } else if pos == POS_POST_C {
            cat = V_PST;
        }
    }
    (cat, pos)
}

} // verus!
