//! The joining types of the characters of the joining scripts.
use vstd::prelude::*;

verus! {

/// How a character joins its neighbours.
#[derive(Clone, Copy, PartialEq, Eq, Debug, Structural)]
pub enum JoiningType {
    U,
    L,
    R,
    D,
    GroupAlaph,
    GroupDalathRish,
    T,
    /// Not in the table: the general category decides between `U` and `T`.
    X,
}

/// The code of a joining type.
pub open spec fn joining_code(t: JoiningType) -> u8 {
    match t {
        JoiningType::U => 0,
        JoiningType::L => 1,
        JoiningType::R => 2,
        JoiningType::D => 3,
        JoiningType::GroupAlaph => 4,
        JoiningType::GroupDalathRish => 5,
        JoiningType::T => 7,
        JoiningType::X => 8,
    }
}

/// The joining type of a code; unknown codes read as `X`.
pub open spec fn joining_from_code(c: u8) -> JoiningType {
    if c == 0 {
        JoiningType::U
    } else if c == 1 {
        JoiningType::L
    } else if c == 2 {
        JoiningType::R
    } else if c == 3 {
        JoiningType::D
    } else if c == 4 {
        JoiningType::GroupAlaph
    } else if c == 5 {
        JoiningType::GroupDalathRish
    } else if c == 7 {
        JoiningType::T
    } else {
        JoiningType::X
    }
}

impl JoiningType {
    /// The code of this joining type.
    pub fn to_u8(self) -> (r: u8)
        ensures
            r == joining_code(self),
    {
        match self {
            JoiningType::U => 0,
            JoiningType::L => 1,
            JoiningType::R => 2,
            JoiningType::D => 3,
            JoiningType::GroupAlaph => 4,
            JoiningType::GroupDalathRish => 5,
            JoiningType::T => 7,
            JoiningType::X => 8,
        }
    }

    /// The joining type of a code; unknown codes read as `X`.
    pub fn from_u8(c: u8) -> (r: JoiningType)
        ensures
            r == joining_from_code(c),
    {
        if c == 0 {
            JoiningType::U
        } else if c == 1 {
            JoiningType::L
        } else if c == 2 {
            JoiningType::R
        } else if c == 3 {
            JoiningType::D
        } else if c == 4 {
            JoiningType::GroupAlaph
        } else if c == 5 {
            JoiningType::GroupDalathRish
        } else if c == 7 {
            JoiningType::T
        } else {
            JoiningType::X
        }
    }
}

/// The joining type code of each character of the ranges below, packed.
pub const JOINING_TABLE: [u8; 1312] = [
    0, 0, 0, 0, 0, 0, 8, 8, 0, 8, 8, 0, 8, 8, 8, 8, 8, 8, 8, 8, 8, 8, 8, 8, 8, 8, 8, 8, 8, 8, 8, 8,
    3, 0, 2, 2, 2, 2, 3, 2, 3, 2, 3, 3, 3, 3, 3, 2, 2, 2, 2, 3, 3, 3, 3, 3, 3, 3, 3, 3, 3, 3, 3, 3,
    3, 3, 3, 3, 3, 3, 3, 3, 2, 3, 3, 8, 8, 8, 8, 8, 8, 8, 8, 8, 8, 8, 8, 8, 8, 8, 8, 8, 8, 8, 8, 8,
    8, 8, 8, 8, 8, 8, 8, 8, 8, 8, 8, 8, 8, 8, 3, 3, 8, 2, 2, 2, 0, 2, 2, 2, 3, 3, 3, 3, 3, 3, 3, 3,
    3, 3, 3, 3, 3, 3, 3, 3, 2, 2, 2, 2, 2, 2, 2, 2, 2, 2, 2, 2, 2, 2, 2, 2, 2, 2, 3, 3, 3, 3, 3, 3,
    3, 3, 3, 3, 3, 3, 3, 3, 3, 3, 3, 3, 3, 3, 3, 3, 3, 3, 3, 3, 3, 3, 3, 3, 3, 3, 3, 3, 3, 3, 3, 3,
    2, 3, 3, 2, 2, 2, 2, 2, 2, 2, 2, 2, 3, 2, 3, 2, 3, 3, 2, 2, 8, 2, 8, 8, 8, 8, 8, 8, 8, 0, 8, 8,
    8, 8, 8, 8, 8, 8, 8, 8, 8, 8, 8, 8, 8, 8, 2, 2, 8, 8, 8, 8, 8, 8, 8, 8, 8, 8, 3, 3, 3, 8, 8, 3,
    8, 8, 8, 8, 8, 8, 8, 8, 8, 8, 8, 8, 8, 8, 8, 7, 4, 8, 3, 3, 3, 5, 5, 2, 2, 2, 3, 3, 3, 3, 2, 3,
    3, 3, 3, 3, 3, 3, 3, 3, 2, 3, 5, 3, 2, 3, 3, 5, 8, 8, 8, 8, 8, 8, 8, 8, 8, 8, 8, 8, 8, 8, 8, 8,
    8, 8, 8, 8, 8, 8, 8, 8, 8, 8, 8, 8, 8, 2, 3, 3, 3, 3, 3, 3, 3, 3, 3, 3, 3, 2, 2, 2, 3, 3, 3, 3,
    3, 3, 3, 3, 3, 3, 3, 3, 3, 3, 3, 2, 2, 3, 3, 3, 3, 2, 3, 2, 2, 3, 3, 3, 2, 2, 3, 3, 3, 3, 3, 3,
    8, 8, 8, 8, 8, 8, 8, 8, 8, 8, 8, 8, 8, 8, 8, 8, 8, 8, 8, 8, 8, 8, 8, 8, 8, 8, 8, 8, 8, 8, 8, 8,
    8, 8, 8, 8, 8, 8, 8, 8, 8, 8, 8, 8, 8, 8, 8, 8, 8, 8, 8, 8, 8, 8, 8, 8, 8, 8, 8, 8, 8, 8, 8, 8,
    8, 8, 8, 8, 8, 8, 8, 8, 8, 8, 3, 3, 3, 3, 3, 3, 3, 3, 3, 3, 3, 3, 3, 3, 3, 3, 3, 3, 3, 3, 3, 3,
    3, 3, 3, 3, 3, 3, 3, 3, 3, 3, 3, 8, 8, 8, 8, 8, 8, 8, 8, 8, 8, 8, 8, 8, 8, 8, 3, 8, 8, 8, 8, 8,
    8, 8, 8, 8, 8, 8, 8, 8, 8, 8, 8, 8, 8, 8, 8, 8, 8, 8, 8, 8, 8, 8, 8, 8, 8, 8, 8, 8, 8, 8, 8, 8,
    8, 8, 8, 8, 8, 8, 8, 8, 8, 8, 8, 8, 8, 8, 8, 8, 8, 8, 8, 8, 8, 8, 8, 8, 8, 8, 8, 8, 8, 8, 8, 8,
    2, 3, 3, 3, 3, 3, 2, 2, 3, 2, 3, 3, 3, 3, 3, 3, 3, 3, 3, 3, 2, 3, 0, 0, 0, 8, 8, 8, 8, 8, 8, 8,
    3, 0, 3, 3, 3, 3, 0, 2, 3, 2, 2, 8, 8, 8, 8, 8, 8, 8, 8, 8, 8, 8, 8, 8, 8, 8, 8, 8, 8, 8, 8, 8,
    8, 8, 8, 8, 8, 8, 8, 8, 8, 8, 8, 8, 8, 8, 8, 8, 8, 8, 8, 8, 8, 8, 8, 8, 8, 8, 8, 8, 8, 8, 8, 8,
    3, 3, 3, 3, 3, 3, 3, 3, 3, 3, 2, 2, 2, 0, 2, 3, 3, 2, 2, 3, 3, 8, 3, 3, 3, 2, 3, 3, 3, 3, 8, 8,
    8, 8, 8, 8, 8, 8, 8, 8, 8, 8, 8, 8, 8, 8, 8, 8, 8, 8, 8, 8, 8, 8, 8, 8, 8, 8, 8, 8, 8, 8, 8, 8,
    8, 8, 0, 0, 3, 8, 8, 3, 8, 8, 8, 0, 8, 8, 8, 8, 8, 8, 8, 8, 8, 8, 8, 8, 8, 8, 8, 8, 8, 3, 3, 3,
    3, 3, 3, 3, 3, 3, 3, 3, 3, 3, 3, 3, 3, 3, 3, 3, 3, 3, 3, 3, 3, 3, 3, 3, 3, 3, 3, 3, 3, 3, 3, 3,
    3, 3, 3, 3, 3, 3, 3, 3, 3, 3, 3, 3, 3, 3, 3, 3, 3, 3, 3, 3, 3, 3, 3, 3, 3, 3, 3, 3, 3, 3, 3, 3,
    3, 3, 3, 3, 3, 3, 3, 3, 3, 3, 3, 3, 3, 3, 3, 3, 3, 3, 3, 3, 3, 3, 8, 8, 8, 8, 8, 8, 8, 0, 0, 0,
    0, 0, 7, 7, 3, 3, 3, 3, 3, 3, 3, 3, 3, 3, 3, 3, 3, 3, 3, 3, 3, 3, 3, 3, 3, 3, 3, 3, 3, 3, 3, 3,
    3, 3, 3, 3, 3, 3, 8, 3, 0, 3, 8, 8, 8, 8, 8, 8, 8, 8, 8, 8, 8, 8, 8, 8, 8, 8, 8, 8, 8, 8, 8, 8,
    8, 8, 8, 8, 8, 8, 8, 8, 8, 8, 8, 0, 8, 8, 8, 8, 8, 8, 8, 8, 8, 8, 8, 8, 8, 8, 8, 8, 8, 8, 8, 8,
    8, 8, 8, 8, 8, 8, 8, 8, 8, 8, 8, 8, 8, 8, 8, 8, 8, 8, 8, 8, 8, 8, 8, 8, 8, 8, 8, 8, 8, 8, 8, 8,
    8, 8, 0, 0, 0, 0, 3, 3, 3, 3, 3, 3, 3, 3, 3, 3, 3, 3, 3, 3, 3, 3, 3, 3, 3, 3, 3, 3, 3, 3, 3, 3,
    3, 3, 3, 3, 3, 3, 3, 3, 3, 3, 3, 3, 3, 3, 3, 3, 3, 3, 3, 3, 3, 3, 3, 3, 1, 0, 3, 3, 3, 3, 3, 2,
    0, 2, 0, 2, 2, 0, 0, 1, 2, 2, 2, 2, 2, 3, 3, 3, 3, 1, 3, 3, 3, 3, 3, 2, 3, 3, 3, 2, 0, 0, 2, 8,
    8, 8, 8, 8, 8, 3, 3, 3, 3, 2, 3, 2, 3, 2, 2, 2, 3, 3, 3, 2, 3, 3, 2, 3, 2, 2, 3, 2, 8, 8, 8, 8,
    8, 8, 8, 8, 8, 8, 8, 8, 8, 8, 8, 8, 8, 8, 8, 8, 8, 8, 8, 2, 2, 2, 2, 3, 3, 0, 1, 3, 3, 3, 3, 3,
    3, 3, 3, 3, 3, 3, 3, 3, 3, 3, 3, 3, 3, 3, 3, 3, 3, 3, 3, 3, 3, 3, 3, 3, 3, 3, 3, 3, 2, 3, 3, 3,
    3, 2, 3, 3, 3, 3, 3, 3, 3, 3, 3, 3, 3, 3, 3, 3, 3, 3, 3, 0, 8, 8, 8, 8, 8, 8, 8, 8, 8, 8, 8, 3,
    3, 3, 2, 0, 8, 8, 8, 8, 8, 8, 8, 8, 8, 8, 8, 8, 8, 8, 8, 0, 3, 3, 3, 3, 3, 3, 3, 3, 3, 3, 3, 3,
    3, 3, 3, 3, 3, 3, 3, 3, 3, 3, 3, 3, 3, 3, 3, 3, 3, 3, 3, 3, 3, 3, 3, 3, 3, 3, 3, 3, 3, 3, 3, 3,
    3, 3, 3, 3, 3, 3, 3, 3, 3, 3, 3, 3, 3, 3, 3, 3, 3, 3, 3, 3, 3, 3, 3, 3, 8, 8, 8, 8, 8, 8, 8, 7,
];

pub const JOINING_OFFSET_0X0600: usize = 0;

pub const JOINING_OFFSET_0X1806: usize = 739;

pub const JOINING_OFFSET_0X200C: usize = 904;

pub const JOINING_OFFSET_0XA840: usize = 998;

pub const JOINING_OFFSET_0X10AC0: usize = 1050;

pub const JOINING_OFFSET_0X10B80: usize = 1098;

pub const JOINING_OFFSET_0X10D00: usize = 1146;

pub const JOINING_OFFSET_0X10F30: usize = 1182;

pub const JOINING_OFFSET_0X110BD: usize = 1219;

pub const JOINING_OFFSET_0X1E900: usize = 1236;

/// The joining type that the table gives a code point: the entry of its
/// range, or `X` outside the ranges.
#[verifier::opaque]
pub open spec fn table_joining(u: u32) -> JoiningType {
    if 0x0600 <= u <= 0x08E2 {
        joining_from_code(JOINING_TABLE@[u - 0x0600 + JOINING_OFFSET_0X0600])
    } else if 0x1806 <= u <= 0x18AA {
        joining_from_code(JOINING_TABLE@[u - 0x1806 + JOINING_OFFSET_0X1806])
    } else if 0x200C <= u <= 0x2069 {
        joining_from_code(JOINING_TABLE@[u - 0x200C + JOINING_OFFSET_0X200C])
    } else if 0xA840 <= u <= 0xA873 {
        joining_from_code(JOINING_TABLE@[u - 0xA840 + JOINING_OFFSET_0XA840])
    } else if 0x10AC0 <= u <= 0x10AEF {
        joining_from_code(JOINING_TABLE@[u - 0x10AC0 + JOINING_OFFSET_0X10AC0])
    } else if 0x10B80 <= u <= 0x10BAF {
        joining_from_code(JOINING_TABLE@[u - 0x10B80 + JOINING_OFFSET_0X10B80])
    } else if 0x10D00 <= u <= 0x10D23 {
        joining_from_code(JOINING_TABLE@[u - 0x10D00 + JOINING_OFFSET_0X10D00])
    } else if 0x10F30 <= u <= 0x10F54 {
        joining_from_code(JOINING_TABLE@[u - 0x10F30 + JOINING_OFFSET_0X10F30])
    } else if 0x110BD <= u <= 0x110CD {
        joining_from_code(JOINING_TABLE@[u - 0x110BD + JOINING_OFFSET_0X110BD])
    } else if 0x1E900 <= u <= 0x1E94B {
        joining_from_code(JOINING_TABLE@[u - 0x1E900 + JOINING_OFFSET_0X1E900])
    } else {
        JoiningType::X
    }
}

/// The joining type that the table gives code point `u`.
pub fn table_joining_type(u: u32) -> (r: JoiningType)
    ensures
        r == table_joining(u),
{
    reveal(table_joining);
    let block = u >> 12u32;
    assert(block == u / 4096) by (bit_vector)
        requires
            block == u >> 12u32,
    ;
    if block == 0x0 {
        if 0x0600 <= u && u <= 0x08E2 {
            return JoiningType::from_u8(JOINING_TABLE[u as usize - 0x0600 + JOINING_OFFSET_0X0600]);
        }
    } else if block == 0x1 {
        if 0x1806 <= u && u <= 0x18AA {
            return JoiningType::from_u8(JOINING_TABLE[u as usize - 0x1806 + JOINING_OFFSET_0X1806]);
        }
    } else if block == 0x2 {
        if 0x200C <= u && u <= 0x2069 {
            return JoiningType::from_u8(JOINING_TABLE[u as usize - 0x200C + JOINING_OFFSET_0X200C]);
        }
    } else if block == 0xA {
        if 0xA840 <= u && u <= 0xA873 {
            return JoiningType::from_u8(JOINING_TABLE[u as usize - 0xA840 + JOINING_OFFSET_0XA840]);
        }
    } else if block == 0x10 {
        if 0x10AC0 <= u && u <= 0x10AEF {
            return JoiningType::from_u8(
                JOINING_TABLE[u as usize - 0x10AC0 + JOINING_OFFSET_0X10AC0],
            );
        }
        if 0x10B80 <= u && u <= 0x10BAF {
            return JoiningType::from_u8(
                JOINING_TABLE[u as usize - 0x10B80 + JOINING_OFFSET_0X10B80],
            );
        }
        if 0x10D00 <= u && u <= 0x10D23 {
            return JoiningType::from_u8(
                JOINING_TABLE[u as usize - 0x10D00 + JOINING_OFFSET_0X10D00],
            );
        }
        if 0x10F30 <= u && u <= 0x10F54 {
            return JoiningType::from_u8(
                JOINING_TABLE[u as usize - 0x10F30 + JOINING_OFFSET_0X10F30],
            );
        }
    } else if block == 0x11 {
        if 0x110BD <= u && u <= 0x110CD {
            return JoiningType::from_u8(
                JOINING_TABLE[u as usize - 0x110BD + JOINING_OFFSET_0X110BD],
            );
        }
    } else if block == 0x1E {
        if 0x1E900 <= u && u <= 0x1E94B {
            return JoiningType::from_u8(
                JOINING_TABLE[u as usize - 0x1E900 + JOINING_OFFSET_0X1E900],
            );
        }
    }
    JoiningType::X
}

/// The joining type that the table gives `u`: its entry in the table of
/// the joining scripts' ranges, `X` (undecided) outside them.
pub fn joining_type(u: char) -> (r: JoiningType)
    ensures
        r == table_joining(u as u32),
{
    table_joining_type(u as u32)
}

} // verus!
