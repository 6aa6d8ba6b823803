//! A digest of a set of glyphs: one bit per class of glyph ids, so that a
//! clear bit proves a glyph absent.
use vstd::prelude::*;

verus! {

/// The mask type of a digest.
pub type mask_t = u32;

/// A digest that keeps bit `(g >> shift) % 32` for every glyph `g` added.
pub struct hb_set_digest_bits_pattern_t<const shift: u8> {
    pub mask: mask_t,
}

/// The bit of glyph `g` in a digest with shift `s`.
pub open spec fn digest_bit(s: u8, g: u16) -> mask_t {
    1u32 << (((g as u32) >> (s as u32)) & 31u32)
}

/// Glyph `g` may be in a digest with mask `mask` and shift `s`.
pub open spec fn digest_may_have(mask: mask_t, s: u8, g: u16) -> bool {
    mask & digest_bit(s, g) != 0
}

impl<const shift: u8> hb_set_digest_bits_pattern_t<shift> {
    /// The empty digest.
    pub fn new() -> (r: Self)
        ensures
            r.mask == 0,
    {
        Self { mask: 0 }
    }

    /// The digest that may have every glyph.
    pub fn full() -> (r: Self)
        ensures
            r.mask == mask_t::MAX,
    {
        Self { mask: mask_t::MAX }
    }

    /// Adds every glyph that `o` may have.
    pub fn union(&mut self, o: &hb_set_digest_bits_pattern_t<shift>)
        ensures
            final(self).mask == old(self).mask | o.mask,
    {
        self.mask = self.mask | o.mask;
    }

    /// The number of bytes of the mask.
    pub fn mask_bytes() -> (r: u32)
        ensures
            r == 4,
    {
        4
    }

    /// The number of bits of the mask.
    pub fn mask_bits() -> (r: u32)
        ensures
            r == 32,
    {
        Self::mask_bytes() * 8
    }

    /// The bit of glyph `g`.
    pub fn mask_for(g: u16) -> (r: mask_t)
        requires
            shift < 32,
        ensures
            r == digest_bit(shift, g),
    {
        let s: u8 = shift;
        let z = ((g as u32) >> (s as u32)) & (Self::mask_bits() - 1);
        proof {
            lemma_class_lt(g, s, z);
        }
        1u32 << z
    }

    /// Adds glyph `g`.
    pub fn add(&mut self, g: u16)
        requires
            shift < 32,
        ensures
            final(self).mask == old(self).mask | digest_bit(shift, g),
            digest_may_have(final(self).mask, shift, g),
    {
        let m = Self::mask_for(g);
        self.mask = self.mask | m;
        proof {
            lemma_add_has(old(self).mask, shift, g);
        }
    }

    /// Adds the glyphs from `a` to `b`: their bits when the range of their
    /// classes is shorter than the mask, all bits otherwise.  Returns
    /// whether the digest can still tell glyphs apart.
    pub fn add_range(&mut self, a: u16, b: u16) -> (r: bool)
        requires
            shift < 32,
            old(self).mask != mask_t::MAX ==> ((a as u32) >> (shift as u32)) <= ((b as u32) >> (shift as u32)),
        ensures
            old(self).mask == mask_t::MAX ==> !r && final(self).mask == mask_t::MAX,
            old(self).mask != mask_t::MAX && ((b as u32) >> (shift as u32)) - ((a as u32) >> (
            shift as u32)) >= 31 ==> !r && final(self).mask == mask_t::MAX,
            old(self).mask != mask_t::MAX && ((b as u32) >> (shift as u32)) - ((a as u32) >> (
            shift as u32)) < 31 ==> r && final(self).mask == old(self).mask | range_bits(
                digest_bit(shift, a),
                digest_bit(shift, b),
            ),
            forall|g: u16|
                a <= g <= b ==> #[trigger] digest_may_have(final(self).mask, shift, g),
    {
        if self.mask == mask_t::MAX {
            proof {
                assert forall|g: u16| a <= g <= b implies #[trigger] digest_may_have(
                    self.mask,
                    shift,
                    g,
                ) by {
                    lemma_full_has(shift, g);
                }
            }
            return false;
        }
        if ((b as u32) >> (shift as u32)) - ((a as u32) >> (shift as u32)) >= Self::mask_bits()
            - 1 {
            self.mask = mask_t::MAX;
            proof {
                assert forall|g: u16| a <= g <= b implies #[trigger] digest_may_have(
                    self.mask,
                    shift,
                    g,
                ) by {
                    lemma_full_has(shift, g);
                }
            }
            false
        } else {
            let ma = Self::mask_for(a);
            let mb = Self::mask_for(b);
            let carry: u32 = if mb < ma {
                1
            } else {
                0
            };
            let bits = mb.wrapping_add(mb.wrapping_sub(ma)).wrapping_sub(carry);
            assert(bits == range_bits(ma, mb));
            self.mask = self.mask | bits;
            proof {
                assert forall|g: u16| a <= g <= b implies #[trigger] digest_may_have(
                    self.mask,
                    shift,
                    g,
                ) by {
                    lemma_range_has(old(self).mask, shift, a, b, g);
                }
            }
            true
        }
    }

    /// The number of digest bits of a glyph class that a mask this size
    /// can tell apart, by the mask's size in bytes.
    pub fn num_bits() -> (r: usize)
        ensures
            r == 5,
    {
        let mut num: usize = 0;
        if Self::mask_bytes() >= 1 {
            num = num + 3;
        }
        if Self::mask_bytes() >= 2 {
            num = num + 1;
        }
        if Self::mask_bytes() >= 4 {
            num = num + 1;
        }
        if Self::mask_bytes() >= 8 {
            num = num + 1;
        }
        if Self::mask_bytes() >= 16 {
            num = num + 1;
        }
        num
    }
}

/// `x + y` in 32-bit wrapping arithmetic.
pub open spec fn wrap_add(x: u32, y: u32) -> u32 {
    if x + y > u32::MAX {
        (x + y - 0x1_0000_0000) as u32
    } else {
        (x + y) as u32
    }
}

/// `x - y` in 32-bit wrapping arithmetic.
pub open spec fn wrap_sub(x: u32, y: u32) -> u32 {
    if x - y < 0 {
        (x - y + 0x1_0000_0000) as u32
    } else {
        (x - y) as u32
    }
}

/// The bits from that of `ma` to that of `mb`, going round past the top bit
/// when `mb`'s bit is below `ma`'s: `mb + (mb - ma) - (mb < ma)` in 32-bit
/// wrapping arithmetic.
pub open spec fn range_bits(ma: u32, mb: u32) -> u32 {
    wrap_sub(wrap_add(mb, wrap_sub(mb, ma)), if mb < ma {
        1u32
    } else {
        0u32
    })
}

/// The class of a glyph, taken modulo 32, names a bit.
proof fn lemma_class_lt(g: u16, s: u8, z: u32)
    requires
        z == ((g as u32) >> (s as u32)) & 31u32,
    ensures
        z < 32,
{
    assert(z < 32) by (bit_vector)
        requires
            z == ((g as u32) >> (s as u32)) & 31u32,
    ;
}

/// After its bit is added, a digest may have the glyph.
proof fn lemma_add_has(mask: u32, s: u8, g: u16)
    requires
        s < 32,
    ensures
        digest_may_have(mask | digest_bit(s, g), s, g),
{
    let z = ((g as u32) >> (s as u32)) & 31u32;
    lemma_class_lt(g, s, z);
    assert(z < 32 ==> (mask | (1u32 << z)) & (1u32 << z) != 0) by (bit_vector);
}

/// The full digest may have every glyph.
proof fn lemma_full_has(s: u8, g: u16)
    requires
        s < 32,
    ensures
        digest_may_have(mask_t::MAX, s, g),
{
    let z = ((g as u32) >> (s as u32)) & 31u32;
    assert(0xFFFF_FFFFu32 & (1u32 << z) != 0) by (bit_vector)
        requires
            z == ((g as u32) >> (s as u32)) & 31u32,
    ;
}

/// A glyph between `a` and `b` has its bit among the bits of the range.
proof fn lemma_range_has(mask: u32, s: u8, a: u16, b: u16, g: u16)
    requires
        s < 32,
        a <= g <= b,
        ((b as u32) >> (s as u32)) - ((a as u32) >> (s as u32)) < 31,
        ((a as u32) >> (s as u32)) <= ((b as u32) >> (s as u32)),
    ensures
        digest_may_have(mask | range_bits(digest_bit(s, a), digest_bit(s, b)), s, g),
{
    let sa = (a as u32) >> (s as u32);
    let sb = (b as u32) >> (s as u32);
    let sg = (g as u32) >> (s as u32);
    assert(sa <= sg && sg <= sb) by (bit_vector)
        requires
            a <= g <= b,
            sa == (a as u32) >> (s as u32),
            sb == (b as u32) >> (s as u32),
            sg == (g as u32) >> (s as u32),
    ;
    let x = sa & 31u32;
    let y = sb & 31u32;
    let z = sg & 31u32;
    assert((x <= y && x <= z && z <= y) || (y < x && (x <= z || z <= y))) by (bit_vector)
        requires
            sa <= sg && sg <= sb,
            sb - sa < 31,
            x == sa & 31u32,
            y == sb & 31u32,
            z == sg & 31u32,
    ;
    assert(x < 32 && y < 32 && z < 32) by (bit_vector)
        requires
            x == sa & 31u32,
            y == sb & 31u32,
            z == sg & 31u32,
    ;
    let ma = 1u32 << x;
    let mb = 1u32 << y;
    let c: u32 = if mb < ma {
        1u32
    } else {
        0u32
    };
    let d = wrap_sub(mb, ma);
    let e = wrap_add(mb, d);
    let f = wrap_sub(e, c);
    assert((mask | f) & (1u32 << z) != 0) by (bit_vector)
        requires
            x < 32 && y < 32 && z < 32,
            (x <= y && x <= z && z <= y) || (y < x && (x <= z || z <= y)),
            ma == 1u32 << x,
            mb == 1u32 << y,
            c == (if mb < ma { 1u32 } else { 0u32 }),
            d == (if mb - ma < 0 { (mb - ma + 0x1_0000_0000) as u32 } else { (mb - ma) as u32 }),
            e == (if mb + d > 0xFFFF_FFFFu32 { (mb + d - 0x1_0000_0000) as u32 } else { (mb + d) as u32 }),
            f == (if e - c < 0 { (e - c + 0x1_0000_0000) as u32 } else { (e - c) as u32 }),
    ;
}

} // verus!
