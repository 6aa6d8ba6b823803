//! Single-bit flags and bit ranges, used to test membership of small
//! enumerations (categories, syllable kinds) with one `&`.

use vstd::prelude::*;

verus! {

/// The mask with only bit `x` set, in 32 bits.
pub fn rb_flag(x: u32) -> (r: u32)
    requires
        x < 32,
    ensures
        r == 1u32 << x,
        r != 0,
{
    assert(x < 32 ==> (1u32 << x) != 0) by (bit_vector);
    1u32 << x
}

/// The mask with only bit `x` set, or 0 when `x` names no bit of a `u32`.
pub fn rb_flag_unsafe(x: u32) -> (r: u32)
    ensures
        x < 32 ==> r == 1u32 << x,
        x >= 32 ==> r == 0,
{
    if x < 32 {
        1u32 << x
    } else {
        0
    }
}

/// `rb_flag(y + 1) - rb_flag(x)`, plus one when `x < y`.
///
/// With `x <= y` the difference is the mask of the bits `x..=y`; the extra
/// one for `x < y` is added as the computation has always done.
pub fn rb_flag_range(x: u32, y: u32) -> (r: u32)
    requires
        x < 32,
        y < 31,
        x <= y + 1,
    ensures
        r == (if x < y { 1int } else { 0int }) + (1u32 << (y + 1) as u32) - (1u32 << x),
{
    let y1: u32 = y + 1;
    assert(x < 32 && y1 < 32 && x <= y1 ==> (1u32 << x) <= (1u32 << y1)) by (bit_vector);
    assert(y1 < 32 ==> (1u32 << y1) <= 0x8000_0000u32) by (bit_vector);
    let lt: u32 = if x < y { 1 } else { 0 };
    lt + rb_flag(y1) - rb_flag(x)
}

/// The mask with only bit `x` set, in 64 bits.
pub fn rb_flag64(x: u32) -> (r: u64)
    requires
        x < 64,
    ensures
        r == 1u64 << x,
        r != 0,
{
    let s: u64 = x as u64;
    assert(s < 64 ==> (1u64 << s) != 0) by (bit_vector);
    1u64 << s
}

/// The 64-bit mask with only bit `x` set, or 0 when `x` names no bit of a `u64`.
pub fn rb_flag64_unsafe(x: u32) -> (r: u64)
    ensures
        x < 64 ==> r == 1u64 << x,
        x >= 64 ==> r == 0,
{
    if x < 64 {
        let s: u64 = x as u64;
        1u64 << s
    } else {
        0
    }
}

} // verus!
