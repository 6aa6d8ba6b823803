//! Glyph records: the per-glyph information and position that a buffer
//! holds, with the small fields packed into their two scratch words.
//!
//! Word `var1` holds the glyph properties in its low 16 bits, the ligature
//! properties in bits 16..24 and the syllable in bits 24..32. Word `var2`
//! holds the unicode properties in its low 16 bits and a shaper-specific
//! byte (the Arabic shaping action, a script category) in bits 16..24.

use vstd::prelude::*;
use crate::unicode::{gc_code, gc_from_code, gc_is_mark, is_default_ignorable, lemma_gc_code_roundtrip, spec_is_default_ignorable, GeneralCategory};

verus! {

/// Glyph flag: breaking the text at the start of this glyph's cluster may
/// change the shaping result on both sides.
pub const UNSAFE_TO_BREAK: u32 = 0x00000001;
/// Glyph flag: changing the text on one side of the start of this glyph's
/// cluster may change the result on the other side.
pub const UNSAFE_TO_CONCAT: u32 = 0x00000002;
/// All the glyph flags defined.
pub const GLYPH_FLAG_DEFINED: u32 = 0x00000003;

/// Unicode properties: the general category field.
pub const UPROPS_GENERAL_CATEGORY: u16 = 0x001F;
/// Unicode properties: the character is default-ignorable.
pub const UPROPS_IGNORABLE: u16 = 0x0020;
/// Unicode properties: hidden (Mongolian free variation selectors, TAG characters, CGJ).
pub const UPROPS_HIDDEN: u16 = 0x0040;
/// Unicode properties: the glyph continues the cluster of the one before it.
pub const UPROPS_CONTINUATION: u16 = 0x0080;
/// Unicode properties, for format characters: ZERO WIDTH JOINER.
pub const UPROPS_CF_ZWJ: u16 = 0x0100;
/// Unicode properties, for format characters: ZERO WIDTH NON-JOINER.
pub const UPROPS_CF_ZWNJ: u16 = 0x0200;

/// Glyph properties: a base glyph.
pub const GPROPS_BASE_GLYPH: u16 = 0x02;
/// Glyph properties: a ligature glyph.
pub const GPROPS_LIGATURE: u16 = 0x04;
/// Glyph properties: a mark glyph.
pub const GPROPS_MARK: u16 = 0x08;
/// Glyph properties: the three glyph classes.
pub const GPROPS_CLASS_MASK: u16 = 0x0E;
/// Glyph properties: the glyph was substituted.
pub const GPROPS_SUBSTITUTED: u16 = 0x10;
/// Glyph properties: the glyph came out of a ligature.
pub const GPROPS_LIGATED: u16 = 0x20;
/// Glyph properties: the glyph came out of a multiple substitution.
pub const GPROPS_MULTIPLIED: u16 = 0x40;
/// Glyph properties kept across substitutions.
pub const GPROPS_PRESERVE: u16 = 0x70;

/// Scratch flag of a buffer: some character is outside ASCII.
pub const SCRATCH_HAS_NON_ASCII: u32 = 0x00000001;
/// Scratch flag of a buffer: some character is default-ignorable.
pub const SCRATCH_HAS_DEFAULT_IGNORABLES: u32 = 0x00000002;
/// Scratch flag of a buffer: some space needs fallback positioning.
pub const SCRATCH_HAS_SPACE_FALLBACK: u32 = 0x00000004;
/// Scratch flag of a buffer: some glyph is attached to another.
pub const SCRATCH_HAS_GPOS_ATTACHMENT: u32 = 0x00000008;
/// Scratch flag of a buffer: some character is COMBINING GRAPHEME JOINER.
pub const SCRATCH_HAS_CGJ: u32 = 0x00000010;
/// Scratch flag of a buffer: some glyph carries a glyph flag.
pub const SCRATCH_HAS_GLYPH_FLAGS: u32 = 0x00000020;
/// Scratch flag of a buffer reserved for complex shapers.
/// The buffer holds a syllable that a shaper could not parse.
pub const SCRATCH_HAS_BROKEN_SYLLABLE: u32 = 0x00000040;

pub const SCRATCH_COMPLEX0: u32 = 0x01000000;

/// The low 16 bits of a word.
pub open spec fn lo16(v: u32) -> u16 {
    (v & 0xFFFF) as u16
}

/// Bits 16..24 of a word.
pub open spec fn byte2(v: u32) -> u8 {
    ((v >> 16u32) & 0xFF) as u8
}

/// Bits 24..32 of a word.
pub open spec fn byte3(v: u32) -> u8 {
    (v >> 24u32) as u8
}

/// Whether a character value is a Unicode scalar value.
pub open spec fn is_scalar(v: u32) -> bool {
    v <= 0x10FFFF && !(0xD800 <= v <= 0xDFFF)
}

/// A word is fixed by its low half and its two high bytes.
pub proof fn lemma_word_parts(a: u32, b: u32)
    requires
        lo16(a) == lo16(b),
        byte2(a) == byte2(b),
        byte3(a) == byte3(b),
    ensures
        a == b,
{
    assert((a & 0xFFFF) as u16 == (b & 0xFFFF) as u16 && ((a >> 16u32) & 0xFF) as u8 == ((b
        >> 16u32) & 0xFF) as u8 && (a >> 24u32) as u8 == (b >> 24u32) as u8 ==> a == b)
        by (bit_vector);
}

/// Setting the second-highest byte of a word keeps its other parts.
pub proof fn lemma_with_byte2(v: u32, n: u8)
    ensures
        byte2((v & 0xFF00_FFFF) | ((n as u32) << 16u32)) == n,
        lo16((v & 0xFF00_FFFF) | ((n as u32) << 16u32)) == lo16(v),
        byte3((v & 0xFF00_FFFF) | ((n as u32) << 16u32)) == byte3(v),
{
    assert(byte2((v & 0xFF00_FFFF) | ((n as u32) << 16u32)) == n && lo16((v & 0xFF00_FFFF) | ((
    n as u32) << 16u32)) == lo16(v) && byte3((v & 0xFF00_FFFF) | ((n as u32) << 16u32)) == byte3(
        v,
    )) by (bit_vector);
}

/// Setting the highest byte of a word keeps its other parts.
pub proof fn lemma_with_byte3(v: u32, n: u8)
    ensures
        byte3((v & 0x00FF_FFFF) | ((n as u32) << 24u32)) == n,
        lo16((v & 0x00FF_FFFF) | ((n as u32) << 24u32)) == lo16(v),
        byte2((v & 0x00FF_FFFF) | ((n as u32) << 24u32)) == byte2(v),
{
    assert(byte3((v & 0x00FF_FFFF) | ((n as u32) << 24u32)) == n && lo16((v & 0x00FF_FFFF) | ((
    n as u32) << 24u32)) == lo16(v) && byte2((v & 0x00FF_FFFF) | ((n as u32) << 24u32)) == byte2(
        v,
    )) by (bit_vector);
}

/// Setting the low half of a word keeps its high bytes.
pub proof fn lemma_with_lo16(v: u32, n: u16)
    ensures
        lo16((v & 0xFFFF_0000) | (n as u32)) == n,
        byte2((v & 0xFFFF_0000) | (n as u32)) == byte2(v),
        byte3((v & 0xFFFF_0000) | (n as u32)) == byte3(v),
{
    assert(lo16((v & 0xFFFF_0000) | (n as u32)) == n && byte2((v & 0xFFFF_0000) | (n as u32))
        == byte2(v) && byte3((v & 0xFFFF_0000) | (n as u32)) == byte3(v)) by (bit_vector);
}

/// The all-zero glyph record.
pub open spec fn zero_info() -> hb_glyph_info_t {
    hb_glyph_info_t { glyph_id: 0, mask: 0, cluster: 0, var1: 0, var2: 0 }
}

/// The box that a glyph's outline fills, relative to the glyph's origin.
#[derive(Clone, Copy, Default, Debug)]
pub struct GlyphExtents {
    /// From the origin to the left of the box.
    pub x_bearing: i32,
    /// From the origin to the top of the box.
    pub y_bearing: i32,
    /// The box's width.
    pub width: i32,
    /// The box's height (negative: downwards).
    pub height: i32,
}

/// The zero position.
pub open spec fn zero_pos() -> GlyphPosition {
    GlyphPosition { x_advance: 0, y_advance: 0, x_offset: 0, y_offset: 0, var: 0 }
}

/// The position of a glyph, relative to the current point.
#[derive(Clone, Copy, Debug)]
pub struct GlyphPosition {
    /// How far the line advances after this glyph when set horizontally.
    pub x_advance: i32,
    /// How far the line advances after this glyph when set vertically.
    pub y_advance: i32,
    /// How far the glyph moves on the X axis before it is drawn.
    pub x_offset: i32,
    /// How far the glyph moves on the Y axis before it is drawn.
    pub y_offset: i32,
    pub var: u32,
}

impl GlyphPosition {
    /// The zero position.
    pub fn new() -> (r: GlyphPosition)
        ensures
            r == zero_pos(),
    {
        GlyphPosition { x_advance: 0, y_advance: 0, x_offset: 0, y_offset: 0, var: 0 }
    }

    /// The zero position with the given advances and offsets.
    pub fn from_values(x_advance: i32, y_advance: i32, x_offset: i32, y_offset: i32) -> (r:
        GlyphPosition)
        ensures
            r.x_advance == x_advance && r.y_advance == y_advance,
            r.x_offset == x_offset && r.y_offset == y_offset,
            r.var == 0,
    {
        GlyphPosition { x_advance, y_advance, x_offset, y_offset, var: 0 }
    }

    /// The offset, in glyphs, of the glyph this one attaches to: negative
    /// backward, positive forward, zero for none.
    pub fn attach_chain(&self) -> (r: i16)
        ensures
            r == (lo16(self.var) as i16),
    {
        ((self.var & 0xFFFF) as u16) as i16
    }

    /// Sets the attachment offset; the attachment type is kept.
    pub fn set_attach_chain(&mut self, n: i16)
        ensures
            lo16(final(self).var) as i16 == n,
            byte2(final(self).var) == byte2(old(self).var),
            byte3(final(self).var) == byte3(old(self).var),
            final(self).x_advance == old(self).x_advance,
            final(self).y_advance == old(self).y_advance,
            final(self).x_offset == old(self).x_offset,
            final(self).y_offset == old(self).y_offset,
    {
        let v = self.var;
        let u: u16 = n as u16;
        let nv: u32 = (v & 0xFFFF_0000) | (u as u32);
        assert(((((v & 0xFFFF_0000) | (u as u32)) & 0xFFFF) as u16) == u) by (bit_vector);
        assert((((((v & 0xFFFF_0000) | (u as u32)) >> 16u32) & 0xFF) as u8) == (((v >> 16u32)
            & 0xFF) as u8)) by (bit_vector);
        assert((((((v & 0xFFFF_0000) | (u as u32)) >> 24u32)) as u8) == ((v >> 24u32) as u8))
            by (bit_vector);
        assert((n as u16) as i16 == n) by (bit_vector);
        self.var = nv;
    }

    /// The attachment type (meaningful only when the attachment offset is not zero).
    pub fn attach_type(&self) -> (r: u8)
        ensures
            r == byte2(self.var),
    {
        ((self.var >> 16u32) & 0xFF) as u8
    }

    /// Sets the attachment type; the attachment offset is kept.
    pub fn set_attach_type(&mut self, n: u8)
        ensures
            byte2(final(self).var) == n,
            lo16(final(self).var) == lo16(old(self).var),
            byte3(final(self).var) == byte3(old(self).var),
            final(self).x_advance == old(self).x_advance,
            final(self).y_advance == old(self).y_advance,
            final(self).x_offset == old(self).x_offset,
            final(self).y_offset == old(self).y_offset,
    {
        let v = self.var;
        proof {
            lemma_with_byte2(v, n);
        }
        self.var = (v & 0xFF00_FFFF) | ((n as u32) << 16u32);
    }
}

/// The information of one glyph of a buffer: before shaping, a character
/// and its cluster; after shaping, a glyph id and its cluster.
#[derive(Clone, Copy, Debug)]
pub struct hb_glyph_info_t {
    /// A character value before shaping, a glyph id after it.
    pub glyph_id: u32,
    /// The glyph flags and the feature masks.
    pub mask: u32,
    /// The index of the start of the cluster in the original text.
    pub cluster: u32,
    pub var1: u32,
    pub var2: u32,
}

/// The glyph record under its short name.
pub type GlyphInfo = hb_glyph_info_t;

impl hb_glyph_info_t {
    /// A record of character (or glyph) `glyph_id` in cluster `cluster`,
    /// with every other field zero.
    pub fn new(glyph_id: u32, cluster: u32) -> (r: hb_glyph_info_t)
        ensures
            r.glyph_id == glyph_id && r.cluster == cluster,
            r.mask == 0 && r.var1 == 0 && r.var2 == 0,
    {
        hb_glyph_info_t { glyph_id, mask: 0, cluster, var1: 0, var2: 0 }
    }

    /// The all-zero record.
    pub fn empty() -> (r: hb_glyph_info_t)
        ensures
            r == zero_info(),
    {
        hb_glyph_info_t { glyph_id: 0, mask: 0, cluster: 0, var1: 0, var2: 0 }
    }

    /// Whether breaking the text at the start of this glyph's cluster may
    /// change the result.
    pub fn unsafe_to_break(&self) -> (r: bool)
        ensures
            r == (self.mask & UNSAFE_TO_BREAK != 0),
    {
        self.mask & UNSAFE_TO_BREAK != 0
    }

    /// The record's character.
    pub fn as_char(&self) -> (r: char)
        requires
            is_scalar(self.glyph_id),
        ensures
            r as u32 == self.glyph_id,
    {
        match char_from_u32(self.glyph_id) {
            Some(c) => c,
            None => {
                assert(false);
                '\0'
            },
        }
    }

    // ---- var1 ----

    pub open spec fn spec_glyph_props(&self) -> u16 {
        lo16(self.var1)
    }

    /// The glyph properties (class and substitution history).
    #[verifier::when_used_as_spec(spec_glyph_props)]
    pub fn glyph_props(&self) -> (r: u16)
        ensures
            r == lo16(self.var1),
    {
        (self.var1 & 0xFFFF) as u16
    }

    /// Sets the glyph properties; everything else is kept.
    pub fn set_glyph_props(&mut self, n: u16)
        ensures
            final(self).glyph_props() == n,
            final(self).lig_props() == old(self).lig_props(),
            final(self).syllable() == old(self).syllable(),
            final(self).var2 == old(self).var2,
            final(self).glyph_id == old(self).glyph_id,
            final(self).mask == old(self).mask,
            final(self).cluster == old(self).cluster,
    {
        let v = self.var1;
        proof {
            lemma_with_lo16(v, n);
        }
        self.var1 = (v & 0xFFFF_0000) | (n as u32);
    }

    pub open spec fn spec_lig_props(&self) -> u8 {
        byte2(self.var1)
    }

    /// The ligature properties (ligature id and component).
    #[verifier::when_used_as_spec(spec_lig_props)]
    pub fn lig_props(&self) -> (r: u8)
        ensures
            r == byte2(self.var1),
    {
        ((self.var1 >> 16u32) & 0xFF) as u8
    }

    /// Sets the ligature properties; everything else is kept.
    pub fn set_lig_props(&mut self, n: u8)
        ensures
            final(self).lig_props() == n,
            final(self).glyph_props() == old(self).glyph_props(),
            final(self).syllable() == old(self).syllable(),
            final(self).var2 == old(self).var2,
            final(self).glyph_id == old(self).glyph_id,
            final(self).mask == old(self).mask,
            final(self).cluster == old(self).cluster,
    {
        let v = self.var1;
        proof {
            lemma_with_byte2(v, n);
        }
        self.var1 = (v & 0xFF00_FFFF) | ((n as u32) << 16u32);
    }

    pub open spec fn spec_syllable(&self) -> u8 {
        byte3(self.var1)
    }

    /// The syllable: a serial number in the high nibble, a kind in the low one.
    #[verifier::when_used_as_spec(spec_syllable)]
    pub fn syllable(&self) -> (r: u8)
        ensures
            r == byte3(self.var1),
    {
        (self.var1 >> 24u32) as u8
    }

    /// Sets the syllable; everything else is kept.
    pub fn set_syllable(&mut self, n: u8)
        ensures
            final(self).syllable() == n,
            final(self).glyph_props() == old(self).glyph_props(),
            final(self).lig_props() == old(self).lig_props(),
            final(self).var2 == old(self).var2,
            final(self).glyph_id == old(self).glyph_id,
            final(self).mask == old(self).mask,
            final(self).cluster == old(self).cluster,
    {
        let v = self.var1;
        proof {
            lemma_with_byte3(v, n);
        }
        self.var1 = (v & 0x00FF_FFFF) | ((n as u32) << 24u32);
    }

    /// The glyph index kept during normalization (the whole first scratch word).
    pub fn glyph_index(&self) -> (r: u32)
        ensures
            r == self.var1,
    {
        self.var1
    }

    /// Sets the glyph index kept during normalization.
    pub fn set_glyph_index(&mut self, n: u32)
        ensures
            final(self).var1 == n,
            final(self).var2 == old(self).var2,
            final(self).glyph_id == old(self).glyph_id,
            final(self).mask == old(self).mask,
            final(self).cluster == old(self).cluster,
    {
        self.var1 = n;
    }

    // ---- var2 ----

    pub open spec fn spec_unicode_props(&self) -> u16 {
        lo16(self.var2)
    }

    /// The unicode properties (general category, ignorable, hidden,
    /// continuation, joiner bits, and the modified combining class of marks).
    #[verifier::when_used_as_spec(spec_unicode_props)]
    pub fn unicode_props(&self) -> (r: u16)
        ensures
            r == lo16(self.var2),
    {
        (self.var2 & 0xFFFF) as u16
    }

    /// Sets the unicode properties; everything else is kept.
    pub fn set_unicode_props(&mut self, n: u16)
        ensures
            final(self).var2 == (old(self).var2 & 0xFFFF_0000u32) | (n as u32),
            final(self).unicode_props() == n,
            byte2(final(self).var2) == byte2(old(self).var2),
            byte3(final(self).var2) == byte3(old(self).var2),
            final(self).var1 == old(self).var1,
            final(self).glyph_id == old(self).glyph_id,
            final(self).mask == old(self).mask,
            final(self).cluster == old(self).cluster,
    {
        let v = self.var2;
        proof {
            lemma_with_lo16(v, n);
        }
        self.var2 = (v & 0xFFFF_0000) | (n as u32);
    }

    pub open spec fn spec_shaper_byte(&self) -> u8 {
        byte2(self.var2)
    }

    /// The byte that complex shapers keep per glyph (the Arabic shaping
    /// action, a script-specific category).
    #[verifier::when_used_as_spec(spec_shaper_byte)]
    pub fn shaper_byte(&self) -> (r: u8)
        ensures
            r == byte2(self.var2),
    {
        ((self.var2 >> 16u32) & 0xFF) as u8
    }

    /// Sets the byte that complex shapers keep; everything else is kept.
    pub fn set_shaper_byte(&mut self, n: u8)
        ensures
            final(self).var2 == (old(self).var2 & 0xFF00_FFFFu32) | ((n as u32) << 16u32),
            final(self).shaper_byte() == n,
            final(self).unicode_props() == old(self).unicode_props(),
            byte3(final(self).var2) == byte3(old(self).var2),
            final(self).var1 == old(self).var1,
            final(self).glyph_id == old(self).glyph_id,
            final(self).mask == old(self).mask,
            final(self).cluster == old(self).cluster,
    {
        let v = self.var2;
        proof {
            lemma_with_byte2(v, n);
        }
        self.var2 = (v & 0xFF00_FFFF) | ((n as u32) << 16u32);
    }

    // ---- derived properties ----

    pub open spec fn spec_general_category(&self) -> GeneralCategory {
        gc_from_code((self.unicode_props() & UPROPS_GENERAL_CATEGORY) as u32)
    }

    /// The general category recorded for the character.
    #[verifier::when_used_as_spec(spec_general_category)]
    pub fn general_category(&self) -> (r: GeneralCategory)
        ensures
            r == gc_from_code((self.unicode_props() & UPROPS_GENERAL_CATEGORY) as u32),
    {
        let n = self.unicode_props() & UPROPS_GENERAL_CATEGORY;
        GeneralCategory::from_rb(n as u32)
    }

    /// Records the general category; the ignorable, hidden and continuation
    /// bits are kept, the high byte of the properties is cleared.
    pub fn set_general_category(&mut self, gc: GeneralCategory)
        ensures
            final(self).unicode_props() == (gc_code(gc) as u16) | (old(self).unicode_props() & 0xE0),
            final(self).general_category() == gc,
            final(self).var1 == old(self).var1,
            final(self).glyph_id == old(self).glyph_id,
            final(self).mask == old(self).mask,
            final(self).cluster == old(self).cluster,
    {
        let code = gc.to_rb();
        proof { lemma_gc_code_roundtrip(gc); }
        let old_props = self.unicode_props();
        let c16: u16 = code as u16;
        let n: u16 = c16 | (old_props & 0xE0);
        assert(c16 < 30 ==> (c16 | (old_props & 0xE0)) & 0x1F == c16) by (bit_vector);
        self.set_unicode_props(n);
    }

    pub open spec fn spec_is_unicode_mark(&self) -> bool {
        gc_is_mark(self.general_category())
    }

    /// Whether the recorded general category is a mark.
    #[verifier::when_used_as_spec(spec_is_unicode_mark)]
    pub fn is_unicode_mark(&self) -> (r: bool)
        ensures
            r == gc_is_mark(self.general_category()),
    {
        self.general_category().is_mark()
    }

    pub open spec fn spec_is_ligated(&self) -> bool {
        self.glyph_props() & GPROPS_LIGATED != 0
    }

    /// Whether the glyph came out of a ligature.
    #[verifier::when_used_as_spec(spec_is_ligated)]
    pub fn is_ligated(&self) -> (r: bool)
        ensures
            r == (self.glyph_props() & GPROPS_LIGATED != 0),
    {
        self.glyph_props() & GPROPS_LIGATED != 0
    }

    /// Whether the glyph came out of a multiple substitution.
    pub fn is_multiplied(&self) -> (r: bool)
        ensures
            r == (self.glyph_props() & GPROPS_MULTIPLIED != 0),
    {
        self.glyph_props() & GPROPS_MULTIPLIED != 0
    }

    /// Whether the glyph was substituted.
    pub fn is_substituted(&self) -> (r: bool)
        ensures
            r == (self.glyph_props() & GPROPS_SUBSTITUTED != 0),
    {
        self.glyph_props() & GPROPS_SUBSTITUTED != 0
    }

    /// Whether the glyph came out of a ligature and not out of a multiple substitution.
    pub fn is_ligated_and_didnt_multiply(&self) -> (r: bool)
        ensures
            r == (self.glyph_props() & GPROPS_LIGATED != 0 && self.glyph_props()
                & GPROPS_MULTIPLIED == 0),
    {
        self.is_ligated() && !self.is_multiplied()
    }

    /// Clears the ligated and multiplied bits of the glyph properties.
    pub fn clear_ligated_and_multiplied(&mut self)
        ensures
            final(self).glyph_props() == old(self).glyph_props() & !(GPROPS_LIGATED
                | GPROPS_MULTIPLIED),
            final(self).lig_props() == old(self).lig_props(),
            final(self).syllable() == old(self).syllable(),
            final(self).var2 == old(self).var2,
            final(self).glyph_id == old(self).glyph_id,
            final(self).mask == old(self).mask,
            final(self).cluster == old(self).cluster,
    {
        let n = self.glyph_props() & !(GPROPS_LIGATED | GPROPS_MULTIPLIED);
        self.set_glyph_props(n);
    }

    /// Whether the character is default-ignorable and not part of a ligature.
    pub fn is_default_ignorable(&self) -> (r: bool)
        ensures
            r == (self.unicode_props() & UPROPS_IGNORABLE != 0 && !self.is_ligated()),
    {
        let n = self.unicode_props() & UPROPS_IGNORABLE;
        n != 0 && !self.is_ligated()
    }

    /// Whether the character is hidden from shaping.
    pub fn is_hidden(&self) -> (r: bool)
        ensures
            r == (self.unicode_props() & UPROPS_HIDDEN != 0),
    {
        self.unicode_props() & UPROPS_HIDDEN != 0
    }

    /// Clears the hidden bit.
    pub fn unhide(&mut self)
        ensures
            final(self).unicode_props() == old(self).unicode_props() & !UPROPS_HIDDEN,
            final(self).var1 == old(self).var1,
            final(self).glyph_id == old(self).glyph_id,
            final(self).mask == old(self).mask,
            final(self).cluster == old(self).cluster,
    {
        let n = self.unicode_props() & !UPROPS_HIDDEN;
        self.set_unicode_props(n);
    }

    /// Sets the continuation bit.
    pub fn set_continuation(&mut self)
        ensures
            final(self).unicode_props() == old(self).unicode_props() | UPROPS_CONTINUATION,
            final(self).var1 == old(self).var1,
            final(self).glyph_id == old(self).glyph_id,
            final(self).mask == old(self).mask,
            final(self).cluster == old(self).cluster,
    {
        let n = self.unicode_props() | UPROPS_CONTINUATION;
        self.set_unicode_props(n);
    }

    /// Clears the continuation bit.
    pub fn reset_continuation(&mut self)
        ensures
            final(self).unicode_props() == old(self).unicode_props() & !UPROPS_CONTINUATION,
            final(self).var1 == old(self).var1,
            final(self).glyph_id == old(self).glyph_id,
            final(self).mask == old(self).mask,
            final(self).cluster == old(self).cluster,
    {
        let n = self.unicode_props() & !UPROPS_CONTINUATION;
        self.set_unicode_props(n);
    }

    pub open spec fn spec_modified_combining_class(&self) -> u8 {
        if self.is_unicode_mark() {
            (self.unicode_props() >> 8u16) as u8
        } else {
            0
        }
    }

    /// The modified combining class of a mark; 0 for anything else.
    #[verifier::when_used_as_spec(spec_modified_combining_class)]
    pub fn modified_combining_class(&self) -> (r: u8)
        ensures
            r == (if self.is_unicode_mark() { (self.unicode_props() >> 8u16) as u8 } else { 0 }),
    {
        if self.is_unicode_mark() {
            (self.unicode_props() >> 8u16) as u8
        } else {
            0
        }
    }

    /// Records the modified combining class of a mark; records of other
    /// characters are left as they are.
    pub fn set_modified_combining_class(&mut self, mcc: u8)
        ensures
            !old(self).is_unicode_mark() ==> *final(self) == *old(self),
            old(self).is_unicode_mark() ==> final(self).var2 == (old(self).var2 & 0xFFFF_0000u32)
                | ((((mcc as u16) << 8u16) | (old(self).unicode_props() & 0xFF)) as u32),
            old(self).is_unicode_mark() ==> {
                &&& final(self).unicode_props() == ((mcc as u16) << 8u16) | (old(
                    self,
                ).unicode_props() & 0xFF)
                &&& final(self).modified_combining_class() == mcc
                &&& final(self).general_category() == old(self).general_category()
            },
            final(self).var1 == old(self).var1,
            final(self).glyph_id == old(self).glyph_id,
            final(self).mask == old(self).mask,
            final(self).cluster == old(self).cluster,
    {
        if !self.is_unicode_mark() {
            return;
        }
        let p = self.unicode_props();
        let n: u16 = ((mcc as u16) << 8u16) | (p & 0xFF);
        assert((((mcc as u16) << 8u16) | (p & 0xFF)) & 0x1F == p & 0x1F) by (bit_vector);
        assert(((((mcc as u16) << 8u16) | (p & 0xFF)) >> 8u16) as u8 == mcc) by (bit_vector);
        self.set_unicode_props(n);
    }

    /// Whether the ligature properties mark a ligature base.
    pub fn is_ligated_internal(&self) -> (r: bool)
        ensures
            r == (self.lig_props() & 0x10 != 0),
    {
        self.lig_props() & 0x10 != 0
    }

    /// The ligature component the glyph belongs to; 0 on a ligature base.
    pub fn lig_comp(&self) -> (r: u8)
        ensures
            r == (if self.lig_props() & 0x10 != 0 { 0 } else { self.lig_props() & 0x0F }),
    {
        if self.is_ligated_internal() {
            0
        } else {
            self.lig_props() & 0x0F
        }
    }

    /// Computes the unicode properties of the record's character from its
    /// general category `gc` and modified combining class `mcc`, and notes in
    /// `scratch_flags` what the buffer now holds.
    pub fn init_unicode_props(&mut self, gc: GeneralCategory, mcc: u8, scratch_flags: &mut u32)
        ensures
            final(self).unicode_props() == spec_unicode_props_for(old(self).glyph_id, gc, mcc),
            *final(scratch_flags) == spec_scratch_for(*old(scratch_flags), old(self).glyph_id),
            final(self).var1 == old(self).var1,
            final(self).glyph_id == old(self).glyph_id,
            final(self).mask == old(self).mask,
            final(self).cluster == old(self).cluster,
    {
        let u = self.glyph_id;
        let code = gc.to_rb();
        proof { lemma_gc_code_roundtrip(gc); }
        let mut props: u16 = code as u16;
        if u >= 0x80 {
            *scratch_flags = *scratch_flags | SCRATCH_HAS_NON_ASCII;
            if is_default_ignorable(u) {
                *scratch_flags = *scratch_flags | SCRATCH_HAS_DEFAULT_IGNORABLES;
                let extra: u16 = if u == 0x200C {
                    UPROPS_CF_ZWNJ
                } else if u == 0x200D {
                    UPROPS_CF_ZWJ
                } else if (0x180B <= u && u <= 0x180D) || u == 0x180F || (0xE0020 <= u && u
                    <= 0xE007F) {
                    UPROPS_HIDDEN
                } else if u == 0x034F {
                    *scratch_flags = *scratch_flags | SCRATCH_HAS_CGJ;
                    UPROPS_HIDDEN
                } else {
                    0
                };
                props = props | UPROPS_IGNORABLE | extra;
            }
            if gc.is_mark() {
                props = props | UPROPS_CONTINUATION;
                props = props | ((mcc as u16) << 8u16);
            }
        }
        self.set_unicode_props(props);
    }
}

/// The joiner/hidden bits that a default-ignorable character adds.
pub open spec fn spec_ignorable_extra(u: u32) -> u16 {
    if u == 0x200C {
        UPROPS_CF_ZWNJ
    } else if u == 0x200D {
        UPROPS_CF_ZWJ
    } else if (0x180B <= u <= 0x180D) || u == 0x180F || (0xE0020 <= u <= 0xE007F) || u
        == 0x034F {
        UPROPS_HIDDEN
    } else {
        0
    }
}

/// The unicode properties of character `u` of category `gc` and modified
/// combining class `mcc`: the category number; for characters outside
/// ASCII also the ignorable bit and its extra bits, and for marks the
/// continuation bit and the combining class in the high byte.
pub open spec fn spec_unicode_props_for(u: u32, gc: GeneralCategory, mcc: u8) -> u16 {
    let base = gc_code(gc) as u16;
    if u < 0x80 {
        base
    } else {
        let p1 = if spec_is_default_ignorable(u) {
            base | UPROPS_IGNORABLE | spec_ignorable_extra(u)
        } else {
            base
        };
        if gc_is_mark(gc) {
            p1 | UPROPS_CONTINUATION | ((mcc as u16) << 8u16)
        } else {
            p1
        }
    }
}

/// The scratch flags after noting character `u`.
pub open spec fn spec_scratch_for(flags: u32, u: u32) -> u32 {
    if u < 0x80 {
        flags
    } else if !spec_is_default_ignorable(u) {
        flags | SCRATCH_HAS_NON_ASCII
    } else if u == 0x034F {
        flags | SCRATCH_HAS_NON_ASCII | SCRATCH_HAS_DEFAULT_IGNORABLES | SCRATCH_HAS_CGJ
    } else {
        flags | SCRATCH_HAS_NON_ASCII | SCRATCH_HAS_DEFAULT_IGNORABLES
    }
}

/// `char::from_u32`: the character with value `v`, if `v` is a Unicode
/// scalar value. Its documentation promises `Some` exactly for scalar
/// values, holding the character of that value.
#[verifier::external_body]
pub(crate) fn char_from_u32(v: u32) -> (r: Option<char>)
    ensures
        r is Some <==> is_scalar(v),
        r matches Some(c) ==> c as u32 == v,
{
    char::from_u32(v)
}

} // verus!
