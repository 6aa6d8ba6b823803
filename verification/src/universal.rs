//! The Universal Shaping Engine: use categories, the masks that syllables
//! get before the basic features, and the scripts that also join.
use vstd::prelude::*;
use crate::buffer::{hb_buffer_t, syllables_flagged, syllable_end, lemma_syllable_run_bounds};
use crate::syllabic::{circle_count, circles_inserted, insert_dotted_circles};
use crate::universal_machine::{find_syllables, included_positions, use_tokens, SyllableType};
use crate::syllable_machine::label_tokens;
use crate::common::Script;
use crate::glyph::{hb_glyph_info_t, byte2, GPROPS_LIGATED, GPROPS_SUBSTITUTED};
use crate::flags::{rb_flag, rb_flag64, rb_flag_unsafe, rb_flag64_unsafe};
use crate::buffer_moves::{
    merged_or_same, with_records, rotated_left, rotated_right, merge_range, rotate_left_records,
    rotate_right_records, moved_back, with_mask_or,
};

verus! {

/// A use category, stored in the shaper byte of each record.
#[derive(Clone, Copy, PartialEq, Eq, Debug, Structural)]
pub enum Category {
    O,
    B,
    IND,
    N,
    GB,
    CGJ,
    FM,
    SUB,
    H,
    HN,
    ZWNJ,
    ZWJ,
    WJ,
    Rsv,
    R,
    S,
    VS,
    CS,
    HVM,
    Sk,
    FAbv,
    FBlw,
    FPst,
    MAbv,
    MBlw,
    MPst,
    MPre,
    CMAbv,
    CMBlw,
    VAbv,
    VBlw,
    VPst,
    VPre,
    VMAbv,
    VMBlw,
    VMPst,
    VMPre,
    SMAbv,
    SMBlw,
    FMAbv,
    FMBlw,
    FMPst,
}

/// The number of a use category.
pub open spec fn category_code(c: Category) -> u8 {
    match c {
        Category::O => 0,
        Category::B => 1,
        Category::IND => 3,
        Category::N => 4,
        Category::GB => 5,
        Category::CGJ => 6,
        Category::FM => 8,
        Category::SUB => 11,
        Category::H => 12,
        Category::HN => 13,
        Category::ZWNJ => 14,
        Category::ZWJ => 15,
        Category::WJ => 16,
        Category::Rsv => 17,
        Category::R => 18,
        Category::S => 19,
        Category::VS => 21,
        Category::CS => 43,
        Category::HVM => 44,
        Category::Sk => 48,
        Category::FAbv => 24,
        Category::FBlw => 25,
        Category::FPst => 26,
        Category::MAbv => 27,
        Category::MBlw => 28,
        Category::MPst => 29,
        Category::MPre => 30,
        Category::CMAbv => 31,
        Category::CMBlw => 32,
        Category::VAbv => 33,
        Category::VBlw => 34,
        Category::VPst => 35,
        Category::VPre => 22,
        Category::VMAbv => 37,
        Category::VMBlw => 38,
        Category::VMPst => 39,
        Category::VMPre => 23,
        Category::SMAbv => 41,
        Category::SMBlw => 42,
        Category::FMAbv => 45,
        Category::FMBlw => 46,
        Category::FMPst => 47,
    }
}

impl Category {
    /// The number of this category.
    pub fn to_u8(self) -> (r: u8)
        ensures
            r == category_code(self),
    {
        match self {
            Category::O => 0,
            Category::B => 1,
            Category::IND => 3,
            Category::N => 4,
            Category::GB => 5,
            Category::CGJ => 6,
            Category::FM => 8,
            Category::SUB => 11,
            Category::H => 12,
            Category::HN => 13,
            Category::ZWNJ => 14,
            Category::ZWJ => 15,
            Category::WJ => 16,
            Category::Rsv => 17,
            Category::R => 18,
            Category::S => 19,
            Category::VS => 21,
            Category::CS => 43,
            Category::HVM => 44,
            Category::Sk => 48,
            Category::FAbv => 24,
            Category::FBlw => 25,
            Category::FPst => 26,
            Category::MAbv => 27,
            Category::MBlw => 28,
            Category::MPst => 29,
            Category::MPre => 30,
            Category::CMAbv => 31,
            Category::CMBlw => 32,
            Category::VAbv => 33,
            Category::VBlw => 34,
            Category::VPst => 35,
            Category::VPre => 22,
            Category::VMAbv => 37,
            Category::VMBlw => 38,
            Category::VMPst => 39,
            Category::VMPre => 23,
            Category::SMAbv => 41,
            Category::SMBlw => 42,
            Category::FMAbv => 45,
            Category::FMBlw => 46,
            Category::FMPst => 47,
        }
    }
}

/// The mask with the bit of category `c`.
pub fn category_flag(c: Category) -> (r: u32)
    requires
        category_code(c) < 32,
    ensures
        r == 1u32 << category_code(c),
{
    rb_flag(c.to_u8() as u32)
}

/// The 64-bit mask with the bit of category `c`.
pub fn category_flag64(c: Category) -> (r: u64)
    ensures
        r == 1u64 << category_code(c),
{
    rb_flag64(c.to_u8() as u32)
}

/// The categories that follow the base of a syllable: final consonants
/// (and their modifiers), medial consonants, dependent vowels and vowel
/// modifiers.
pub const BASE_FLAGS: u64 = 0x0000_00EE_7FC0_0100;

/// The bits of `BASE_FLAGS` are those of its categories.
pub proof fn lemma_base_flags()
    ensures
        BASE_FLAGS == (1u64 << 8u64) | (1u64 << 24u64) | (1u64 << 25u64) | (1u64 << 26u64) | (1u64
            << 27u64) | (1u64 << 28u64) | (1u64 << 29u64) | (1u64 << 30u64) | (1u64 << 33u64) | (1u64
            << 34u64) | (1u64 << 35u64) | (1u64 << 22u64) | (1u64 << 37u64) | (1u64 << 38u64) | (1u64
            << 39u64) | (1u64 << 23u64),
{
    assert(0x0000_00EE_7FC0_0100u64 == (1u64 << 8u64) | (1u64 << 24u64) | (1u64 << 25u64) | (1u64
        << 26u64) | (1u64 << 27u64) | (1u64 << 28u64) | (1u64 << 29u64) | (1u64 << 30u64) | (1u64
        << 33u64) | (1u64 << 34u64) | (1u64 << 35u64) | (1u64 << 22u64) | (1u64 << 37u64) | (1u64
        << 38u64) | (1u64 << 39u64) | (1u64 << 23u64)) by (bit_vector);
}

/// The use category number of a record.
pub open spec fn use_cat(info: hb_glyph_info_t) -> u8 {
    byte2(info.var2)
}

/// Whether a record is a halant (or a halant or vowel modifier) that is not
/// part of a ligature.
pub open spec fn spec_is_halant_use(info: hb_glyph_info_t) -> bool {
    (use_cat(info) == 12 || use_cat(info) == 44) && info.spec_glyph_props() & GPROPS_LIGATED == 0
}

impl hb_glyph_info_t {
    /// Whether this record is a halant (or a halant or vowel modifier) that
    /// is not part of a ligature.
    pub fn is_halant_use(&self) -> (r: bool)
        ensures
            r == spec_is_halant_use(*self),
    {
        let c = self.shaper_byte();
        (c == 12 || c == 44) && !self.is_ligated()
    }
}

/// The ISO 15924 tags of the scripts whose characters the joining table
/// covers.
pub const SCRIPT_ARABIC: u32 = 0x41726162;
pub const SCRIPT_MONGOLIAN: u32 = 0x4D6F6E67;
pub const SCRIPT_SYRIAC: u32 = 0x53797263;
pub const SCRIPT_NKO: u32 = 0x4E6B6F6F;
pub const SCRIPT_PHAGS_PA: u32 = 0x50686167;
pub const SCRIPT_MANDAIC: u32 = 0x4D616E64;
pub const SCRIPT_MANICHAEAN: u32 = 0x4D616E69;
pub const SCRIPT_PSALTER_PAHLAVI: u32 = 0x50686C70;
pub const SCRIPT_ADLAM: u32 = 0x41646C6D;

/// Whether a script joins like Arabic (the joining table has its
/// characters).
pub open spec fn spec_has_arabic_joining(t: u32) -> bool {
    t == SCRIPT_ARABIC || t == SCRIPT_MONGOLIAN || t == SCRIPT_SYRIAC || t == SCRIPT_NKO || t
        == SCRIPT_PHAGS_PA || t == SCRIPT_MANDAIC || t == SCRIPT_MANICHAEAN || t
        == SCRIPT_PSALTER_PAHLAVI || t == SCRIPT_ADLAM
}

/// Whether `script` joins like Arabic.
pub fn has_arabic_joining(script: Script) -> (r: bool)
    ensures
        r == spec_has_arabic_joining(script.0.0),
{
    let t = script.0.0;
    t == SCRIPT_ARABIC || t == SCRIPT_MONGOLIAN || t == SCRIPT_SYRIAC || t == SCRIPT_NKO || t
        == SCRIPT_PHAGS_PA || t == SCRIPT_MANDAIC || t == SCRIPT_MANICHAEAN || t
        == SCRIPT_PSALTER_PAHLAVI || t == SCRIPT_ADLAM
}

/// The start of the run of records with the syllable of record `i`.
pub open spec fn syllable_start(s: Seq<hb_glyph_info_t>, i: int) -> int
    decreases i,
{
    if i <= 0 {
        0
    } else if s[i - 1].spec_syllable() != s[i].spec_syllable() {
        i
    } else {
        syllable_start(s, i - 1)
    }
}

/// A run of one syllable that starts after another syllable starts at its
/// first record for every record of it.
proof fn lemma_syllable_start(s: Seq<hb_glyph_info_t>, st: int, i: int)
    requires
        0 <= st <= i < s.len(),
        st == 0 || s[st - 1].spec_syllable() != s[st].spec_syllable(),
        forall|k: int| st <= k <= i ==> #[trigger] s[k].spec_syllable() == s[st].spec_syllable(),
    ensures
        syllable_start(s, i) == st,
    decreases i - st,
{
    if i > st {
        lemma_syllable_start(s, st, i - 1);
    }
}

/// Whether record `i` is among the records of its syllable that may form a
/// repha: the first of a syllable that starts with a repha, the first three
/// of any other.
pub open spec fn in_rphf_range(s: Seq<hb_glyph_info_t>, i: int) -> bool {
    let st = syllable_start(s, i);
    i - st < (if use_cat(s[st]) == 18 {
        1int
    } else {
        3int
    })
}

/// The records `s` (the first `len` of them in use) with `mask` added to
/// those that may form a repha.
pub open spec fn rphf_masked(s: Seq<hb_glyph_info_t>, len: int, mask: u32) -> Seq<hb_glyph_info_t> {
    Seq::new(
        s.len(),
        |i: int|
            if mask != 0 && i < len && in_rphf_range(s, i) {
                with_mask_or(s[i], mask)
            } else {
                s[i]
            },
    )
}

/// Adds `mask`, the mask of the repha forms, to the records of each
/// syllable that may form a repha (see `in_rphf_range`).
pub fn setup_rphf_mask(mask: u32, buffer: &mut hb_buffer_t)
    requires
        old(buffer).wf(),
    ensures
        final(buffer).wf(),
        final(buffer).same_but_info(old(buffer)),
        final(buffer).scratch_flags == old(buffer).scratch_flags,
        final(buffer).info@ == rphf_masked(old(buffer).info@, old(buffer).len as int, mask),
{
    let ghost orig = *buffer;
    let ghost s = orig.info@;
    if mask == 0 {
        assert(buffer.info@ =~= Seq::new(
            s.len(),
            |i: int|
                if mask != 0 && i < orig.len && in_rphf_range(s, i) {
                    with_mask_or(s[i], mask)
                } else {
                    s[i]
                },
        ));
        return;
    }
    let len = buffer.len;
    let mut start: usize = 0;
    let mut end = buffer.next_syllable(0);
    while start < len
        invariant
            buffer.wf(),
            buffer.same_but_info(&orig),
            buffer.scratch_flags == orig.scratch_flags,
            len == orig.len,
            mask != 0,
            s == orig.info@,
            start <= len,
            start < len ==> start < end <= len,
            start < len ==> (start == 0 || s[start - 1].spec_syllable() != s[start as int].spec_syllable()),
            start < len ==> forall|k: int| start <= k < end ==> #[trigger] s[k].spec_syllable() == s[start as int].spec_syllable(),
            start < len ==> (end < len ==> s[end as int].spec_syllable() != s[start as int].spec_syllable()),
            buffer.info@.len() == s.len(),
            forall|i: int|
                0 <= i < s.len() ==> #[trigger] buffer.info@[i] == (if i < start && in_rphf_range(s, i) {
                    with_mask_or(s[i], mask)
                } else {
                    s[i]
                }),
        decreases len - start,
    {
        let limit = if buffer.info[start].shaper_byte() == 18 {
            1
        } else if end - start < 3 {
            end - start
        } else {
            3
        };
        let mut i = start;
        while i < start + limit
            invariant
                buffer.wf(),
                buffer.same_but_info(&orig),
                buffer.scratch_flags == orig.scratch_flags,
                start <= i <= start + limit,
                start + limit <= end <= len,
                len == orig.len,
                buffer.info@.len() == s.len(),
                forall|k: int|
                    0 <= k < s.len() ==> #[trigger] buffer.info@[k] == (if (k < start && in_rphf_range(s, k)) || (start <= k < i) {
                        with_mask_or(s[k], mask)
                    } else {
                        s[k]
                    }),
            decreases start + limit - i,
        {
            let mut g = buffer.info[i];
            g.mask = g.mask | mask;
            buffer.info.set(i, g);
            i = i + 1;
        }
        proof {
            assert forall|k: int| start <= k < end implies #[trigger] syllable_start(s, k) == start by {
                lemma_syllable_start(s, start as int, k);
            }
            assert forall|k: int| 0 <= k < s.len() implies #[trigger] buffer.info@[k] == (if k < end && in_rphf_range(s, k) {
                with_mask_or(s[k], mask)
            } else {
                s[k]
            }) by {
                if start <= k < end {
                    assert(syllable_start(s, k) == start);
                }
            }
        }
        start = end;
        end = buffer.next_syllable(start);
        proof {
            assert forall|k: int| 0 <= k < s.len() implies #[trigger] buffer.info@[k].spec_syllable()
                == s[k].spec_syllable() by {
                assert(buffer.info@[k].var1 == s[k].var1);
            }
            if start < len {
                assert forall|k: int| start <= k < end implies #[trigger] s[k].spec_syllable()
                    == s[start as int].spec_syllable() by {
                    assert(buffer.info@[k].spec_syllable() == buffer.info@[start as int].spec_syllable());
                }
            }
        }
    }
    assert(buffer.info@ =~= Seq::new(
        s.len(),
        |i: int|
            if mask != 0 && i < orig.len && in_rphf_range(s, i) {
                with_mask_or(s[i], mask)
            } else {
                s[i]
            },
    ));
}


/// Whether the syllable of a record joins its neighbours: any kind but an
/// independent cluster, a symbol cluster or a non-cluster.
pub open spec fn syllable_joins(info: hb_glyph_info_t) -> bool {
    let k = info.spec_syllable() & 0x0F;
    k != 0 && k != 6 && k != 9
}

/// The first index from `k` on, before `len`, whose syllable is not `v`.
pub open spec fn syllable_end_from(s: Seq<hb_glyph_info_t>, len: int, k: int, v: u8) -> int
    decreases len - k,
{
    if k >= len || s[k].spec_syllable() != v {
        k
    } else {
        syllable_end_from(s, len, k + 1, v)
    }
}

/// The topographical form of the syllable of record `i` (isolated 0,
/// initial 1, medial 2, terminal 3): whether the syllables before and after
/// it join.
pub open spec fn topographical_form(s: Seq<hb_glyph_info_t>, len: int, i: int) -> int {
    let st = syllable_start(s, i);
    let en = syllable_end_from(s, len, i + 1, s[i].spec_syllable());
    let prev = st > 0 && syllable_joins(s[st - 1]);
    let next = en < len && syllable_joins(s[en]);
    if !prev && !next {
        0
    } else if !prev && next {
        1
    } else if prev && next {
        2
    } else {
        3
    }
}

/// `info` with its topographical masks replaced by `m`.
pub open spec fn with_form_mask(info: hb_glyph_info_t, masks: [u32; 4], m: u32) -> hb_glyph_info_t {
    hb_glyph_info_t {
        mask: (info.mask & !(masks[0] | masks[1] | masks[2] | masks[3])) | m,
        ..info
    }
}

/// Replacing the topographical mask twice is replacing it once.
proof fn lemma_form_mask_twice(x: u32, masks: [u32; 4], f: int, g: int)
    requires
        0 <= f < 4,
        0 <= g < 4,
    ensures
        (((x & !(masks[0] | masks[1] | masks[2] | masks[3])) | masks[f]) & !(masks[0] | masks[1]
            | masks[2] | masks[3])) | masks[g] == (x & !(masks[0] | masks[1] | masks[2] | masks[3]))
            | masks[g],
{
    let a = masks[0];
    let b = masks[1];
    let c = masks[2];
    let d = masks[3];
    let mf = masks[f];
    assert(mf == a || mf == b || mf == c || mf == d);
    assert((mf == a || mf == b || mf == c || mf == d) ==> (((x & !(a | b | c | d)) | mf) & !(a | b
        | c | d)) == (x & !(a | b | c | d))) by (bit_vector);
}

/// The end of a run of one syllable is where the syllable changes.
proof fn lemma_syllable_end(s: Seq<hb_glyph_info_t>, n: int, k: int, v: u8, e: int)
    requires
        k <= e <= n <= s.len(),
        forall|j: int| k <= j < e ==> #[trigger] s[j].spec_syllable() == v,
        e == n || s[e].spec_syllable() != v,
    ensures
        syllable_end_from(s, n, k, v) == e,
    decreases e - k,
{
    if k < e {
        lemma_syllable_end(s, n, k + 1, v, e);
    }
}

/// `s` with the topographical masks of the records from `a` to before `b`
/// replaced by `m`.
pub open spec fn form_masked(s: Seq<hb_glyph_info_t>, a: int, b: int, masks: [u32; 4], m: u32) -> Seq<
    hb_glyph_info_t,
> {
    Seq::new(s.len(), |k: int| if a <= k < b { with_form_mask(s[k], masks, m) } else { s[k] })
}

/// Replaces the topographical masks of the records from `a` to before `b`
/// by `m`.
fn set_form_masks(buffer: &mut hb_buffer_t, a: usize, b: usize, masks: &[u32; 4], m: u32)
    requires
        old(buffer).wf(),
        a <= b <= old(buffer).info@.len(),
    ensures
        final(buffer).wf(),
        final(buffer).same_but_info(old(buffer)),
        final(buffer).scratch_flags == old(buffer).scratch_flags,
        final(buffer).info@ == form_masked(old(buffer).info@, a as int, b as int, *masks, m),
{
    let ghost orig = *buffer;
    let other = !(masks[0] | masks[1] | masks[2] | masks[3]);
    let mut i = a;
    while i < b
        invariant
            a <= i <= b <= orig.info@.len(),
            buffer.wf(),
            buffer.same_but_info(&orig),
            buffer.scratch_flags == orig.scratch_flags,
            other == !(masks[0] | masks[1] | masks[2] | masks[3]),
            buffer.info@ == form_masked(orig.info@, a as int, i as int, *masks, m),
        decreases b - i,
    {
        let mut g = buffer.info[i];
        g.mask = (g.mask & other) | m;
        buffer.info.set(i, g);
        i = i + 1;
        assert(buffer.info@ =~= form_masked(orig.info@, a as int, i as int, *masks, m));
    }
}

/// The form a joining syllable has before the next syllable is seen:
/// terminal after a joining syllable, isolated otherwise.
pub open spec fn provisional_form(s: Seq<hb_glyph_info_t>, st: int) -> int {
    if st > 0 && syllable_joins(s[st - 1]) {
        3
    } else {
        0
    }
}

/// The masks so far: final before `ls`, provisional from `ls` to `st`.
pub open spec fn topo_so_far(s: Seq<hb_glyph_info_t>, n: int, masks: [u32; 4], ls: int, st: int) -> Seq<hb_glyph_info_t> {
    Seq::new(
        s.len(),
        |i: int|
            if i < ls && syllable_joins(s[i]) {
                with_form_mask(s[i], masks, masks[topographical_form(s, n, i)])
            } else if ls <= i < st && syllable_joins(s[i]) {
                with_form_mask(s[i], masks, masks[provisional_form(s, ls)])
            } else {
                s[i]
            },
    )
}

/// The records `s` (the first `len` of them in use) with the mask of each
/// joining syllable's topographical form in place of the other forms'.
pub open spec fn topographically_masked(s: Seq<hb_glyph_info_t>, len: int, masks: [u32; 4]) -> Seq<hb_glyph_info_t> {
    Seq::new(
        s.len(),
        |i: int|
            if i < len && syllable_joins(s[i]) {
                with_form_mask(s[i], masks, masks[topographical_form(s, len, i)])
            } else {
                s[i]
            },
    )
}

/// Gives each syllable that joins the mask of its topographical form (see
/// `topographical_form`) in place of the other forms' masks; `masks` are
/// the masks of the isolated, initial, medial and terminal forms (0 for a
/// form whose feature applies everywhere).
pub fn setup_topographical_masks(masks: [u32; 4], buffer: &mut hb_buffer_t)
    requires
        old(buffer).wf(),
    ensures
        final(buffer).wf(),
        final(buffer).same_but_info(old(buffer)),
        final(buffer).scratch_flags == old(buffer).scratch_flags,
        final(buffer).info@ == topographically_masked(old(buffer).info@, old(buffer).len as int, masks),
{
    let ghost orig = *buffer;
    let ghost s = orig.info@;
    let ghost n = orig.len as int;
    let all_masks = masks[0] | masks[1] | masks[2] | masks[3];
    if all_masks == 0 {
        proof {
            assert forall|i: int| 0 <= i < s.len() implies #[trigger] with_form_mask(s[i], masks, masks[topographical_form(s, n, i)]) == s[i] by {
                let m = s[i].mask;
                let f = topographical_form(s, n, i);
                let a = masks[0];
                let b = masks[1];
                let c = masks[2];
                let d = masks[3];
                let mf = masks[f];
                assert(mf == a || mf == b || mf == c || mf == d);
                assert((a | b | c | d) == 0 && (mf == a || mf == b || mf == c || mf == d) ==> ((m & !(a | b | c | d)) | mf) == m) by (bit_vector);
            }
        }
        assert(buffer.info@ =~= Seq::new(
            s.len(),
            |i: int|
                if i < n && syllable_joins(s[i]) {
                    with_form_mask(s[i], masks, masks[topographical_form(s, n, i)])
                } else {
                    s[i]
                },
        ));
        return;
    }
    let len = buffer.len;
    let mut last_start: usize = 0;
    let mut last_form: Option<usize> = None;
    let mut start: usize = 0;
    let mut end = buffer.next_syllable(0);
    proof {
        if 0 < len {
            assert forall|k: int| 0 <= k < end implies #[trigger] s[k].spec_syllable() == s[0].spec_syllable() by {
                assert(buffer.info@[k].spec_syllable() == buffer.info@[0].spec_syllable());
            }
            if end < len {
                assert(buffer.info@[end as int].spec_syllable() != buffer.info@[0].spec_syllable());
            }
            lemma_syllable_end(s, n, 1, s[0].spec_syllable(), end as int);
        }
        assert(buffer.info@ =~= topo_so_far(s, n, masks, 0, 0));
    }
    while start < len
        invariant
            buffer.wf(),
            buffer.same_but_info(&orig),
            buffer.scratch_flags == orig.scratch_flags,
            len == orig.len,
            n == len as int,
            s == orig.info@,
            len <= s.len(),
            last_start <= start <= len,
            start < len ==> start < end <= len,
            start < len ==> (start == 0 || s[start - 1].spec_syllable() != s[start as int].spec_syllable()),
            start < len ==> forall|k: int| start <= k < end ==> #[trigger] s[k].spec_syllable() == s[start as int].spec_syllable(),
            start < len ==> end == syllable_end_from(s, n, start + 1, s[start as int].spec_syllable()),
            start < len ==> (end == len || s[end as int].spec_syllable() != s[start as int].spec_syllable()),
            last_start < start ==> forall|k: int| last_start <= k < start ==> #[trigger] s[k].spec_syllable() == s[last_start as int].spec_syllable(),
            last_start < start ==> (last_start == 0 || s[last_start - 1].spec_syllable() != s[last_start as int].spec_syllable()),
            last_start < start ==> start == syllable_end_from(s, n, last_start + 1, s[last_start as int].spec_syllable()),
            last_start < start ==> (start == len || s[start as int].spec_syllable() != s[last_start as int].spec_syllable()),
            last_start == start ==> start == 0,
            last_start < start ==> (last_form is Some <==> syllable_joins(s[last_start as int])),
            last_start == start ==> last_form is None,
            match last_form {
                Some(f) => f as int == provisional_form(s, last_start as int),
                None => true,
            },
            buffer.info@ == topo_so_far(s, n, masks, last_start as int, start as int),
        decreases len - start,
    {
        let ghost ls = last_start as int;
        let ghost st = start as int;
        let ghost en = end as int;
        proof {
            assert forall|k: int| st <= k < en implies #[trigger] syllable_start(s, k) == st by {
                lemma_syllable_start(s, st, k);
            }
            assert forall|k: int| st <= k < en implies #[trigger] syllable_end_from(s, n, k + 1, s[k].spec_syllable()) == en by {
                lemma_syllable_end(s, n, k + 1, s[st].spec_syllable(), en);
            }
            if ls < st {
                assert forall|k: int| ls <= k < st implies #[trigger] syllable_start(s, k) == ls by {
                    lemma_syllable_start(s, ls, k);
                }
                assert forall|k: int| ls <= k < st implies #[trigger] syllable_end_from(s, n, k + 1, s[k].spec_syllable()) == st by {
                    lemma_syllable_end(s, n, k + 1, s[ls].spec_syllable(), st);
                }
            }
        }
        let syllable = buffer.info[start].syllable() & 0x0F;
        assert(syllable == s[st].spec_syllable() & 0x0F);
        if syllable == 0 || syllable == 6 || syllable == 9 {
            last_form = None;
            proof {
                assert(!syllable_joins(s[st]));
                assert forall|i: int| 0 <= i < s.len() implies #[trigger] buffer.info@[i] == topo_so_far(s, n, masks, st, en)[i] by {
                    if ls <= i < st && syllable_joins(s[i]) {
                        assert(syllable_joins(s[ls]));
                        assert(s[i].spec_syllable() == s[ls].spec_syllable());
                        assert(topographical_form(s, n, i) == provisional_form(s, ls));
                    }
                    if st <= i < en {
                        assert(s[i].spec_syllable() == s[st].spec_syllable());
                    }
                }
                assert(buffer.info@ =~= topo_so_far(s, n, masks, st, en));
            }
        } else {
            proof {
                assert(syllable_joins(s[st]));
            }
            let join = last_form == Some(3usize) || last_form == Some(0usize);
            let ghost prev_joins = st > 0 && syllable_joins(s[st - 1]);
            proof {
                if ls < st {
                    assert(st > 0);
                    assert(s[st - 1].spec_syllable() == s[ls].spec_syllable());
                    assert(join == syllable_joins(s[ls]));
                    assert(prev_joins == syllable_joins(s[ls]));
                } else {
                    assert(!join && !prev_joins);
                }
            }
            if join {
                let form: usize = if last_form == Some(3usize) { 2 } else { 1 };
                let ghost before = buffer.info@;
                set_form_masks(buffer, last_start, start, &masks, masks[form]);
                proof {
                    assert forall|i: int| ls <= i < st && syllable_joins(s[i]) implies #[trigger] buffer.info@[i] == with_form_mask(s[i], masks, masks[topographical_form(s, n, i)]) by {
                        assert(s[i].spec_syllable() == s[ls].spec_syllable());
                        lemma_form_mask_twice(s[i].mask, masks, provisional_form(s, ls), form as int);
                        assert(topographical_form(s, n, i) == form as int);
                    }
                }
            }
            let form: usize = if join { 3 } else { 0 };
            last_form = Some(form);
            let ghost before = buffer.info@;
            set_form_masks(buffer, start, end, &masks, masks[form]);
            proof {
                assert(form as int == provisional_form(s, st));
                assert forall|i: int| 0 <= i < s.len() implies #[trigger] buffer.info@[i] == topo_so_far(s, n, masks, st, en)[i] by {
                    if ls <= i < st {
                        assert(s[i].spec_syllable() == s[ls].spec_syllable());
                        if syllable_joins(s[i]) {
                            if !join {
                                assert(!syllable_joins(s[ls]));
                            }
                        }
                    }
                    if st <= i < en {
                        assert(s[i].spec_syllable() == s[st].spec_syllable());
                    }
                }
                assert(buffer.info@ =~= topo_so_far(s, n, masks, st, en));
            }
        }
        last_start = start;
        start = end;
        end = buffer.next_syllable(start);
        proof {
            assert forall|k: int| 0 <= k < s.len() implies #[trigger] buffer.info@[k].spec_syllable()
                == s[k].spec_syllable() by {
                assert(buffer.info@[k].var1 == s[k].var1);
            }
            if start < len {
                assert forall|k: int| start <= k < end implies #[trigger] s[k].spec_syllable()
                    == s[start as int].spec_syllable() by {
                    assert(buffer.info@[k].spec_syllable() == buffer.info@[start as int].spec_syllable());
                }
                if end < len {
                    assert(buffer.info@[end as int].spec_syllable() != buffer.info@[start as int].spec_syllable());
                }
                lemma_syllable_end(s, n, start + 1, s[start as int].spec_syllable(), end as int);
            }
        }
    }
    proof {
        assert forall|i: int| 0 <= i < s.len() implies #[trigger] buffer.info@[i] == (if i < n && syllable_joins(s[i]) {
            with_form_mask(s[i], masks, masks[topographical_form(s, n, i)])
        } else {
            s[i]
        }) by {
            if last_start <= i < start && syllable_joins(s[i]) {
                let ls = last_start as int;
                assert(s[i].spec_syllable() == s[ls].spec_syllable());
                assert(syllable_start(s, i) == ls) by {
                    lemma_syllable_start(s, ls, i);
                }
                assert(syllable_end_from(s, n, i + 1, s[i].spec_syllable()) == n) by {
                    lemma_syllable_end(s, n, i + 1, s[ls].spec_syllable(), n);
                }
            }
        }
    }
    assert(buffer.info@ =~= Seq::new(
        s.len(),
        |i: int|
            if i < n && syllable_joins(s[i]) {
                with_form_mask(s[i], masks, masks[topographical_form(s, n, i)])
            } else {
                s[i]
            },
    ));
}


/// `info` with use category `c`.
pub open spec fn with_use_category(info: hb_glyph_info_t, c: u8) -> hb_glyph_info_t {
    hb_glyph_info_t { var2: (info.var2 & 0xFF00_FFFFu32) | ((c as u32) << 16u32), ..info }
}

/// Whether a substitution produced a record.
pub open spec fn was_substituted(info: hb_glyph_info_t) -> bool {
    info.spec_glyph_props() & GPROPS_SUBSTITUTED != 0
}

/// Whether record `k` is the first substituted record of its syllable,
/// with every record of the syllable up to it carrying `mask` (any mask
/// when `mask` is `None`).
pub open spec fn first_substituted(s: Seq<hb_glyph_info_t>, k: int, mask: Option<u32>) -> bool {
    let st = syllable_start(s, k);
    &&& was_substituted(s[k])
    &&& forall|m: int| st <= m < k ==> !was_substituted(#[trigger] s[m])
    &&& forall|m: int| st <= m <= k ==> (mask matches Some(x) ==> #[trigger] s[m].mask & x != 0)
}

/// The first record of `start..end` that was substituted, if the records
/// up to it all carry `mask` (any mask when `mask` is `None`).
fn find_first_substituted(infos: &Vec<hb_glyph_info_t>, start: usize, end: usize, mask: Option<u32>) -> (r: Option<usize>)
    requires
        start <= end <= infos@.len(),
    ensures
        forall|k: int| start <= k < end ==> ((r == Some(k as usize)) <==> {
            &&& was_substituted(#[trigger] infos@[k])
            &&& forall|m: int| start <= m < k ==> !was_substituted(#[trigger] infos@[m])
            &&& forall|m: int| start <= m <= k ==> (mask matches Some(x) ==> #[trigger] infos@[m].mask & x != 0)
        }),
        r matches Some(i) ==> start <= i < end,
{
    let mut i = start;
    while i < end
        invariant
            start <= i <= end <= infos@.len(),
            forall|m: int| start <= m < i ==> !was_substituted(#[trigger] infos@[m]),
            forall|m: int| start <= m < i ==> (mask matches Some(x) ==> #[trigger] infos@[m].mask & x != 0),
        decreases end - i,
    {
        let g = infos[i];
        let masked = match mask {
            Some(x) => g.mask & x != 0,
            None => true,
        };
        if !masked {
            return None;
        }
        if g.is_substituted() {
            return Some(i);
        }
        i = i + 1;
    }
    None
}

/// Gives use category `c` to the first substituted record of each
/// syllable (see `first_substituted`).
fn mark_first_substituted(buffer: &mut hb_buffer_t, mask: Option<u32>, c: u8)
    requires
        old(buffer).wf(),
    ensures
        final(buffer).wf(),
        final(buffer).same_but_info(old(buffer)),
        final(buffer).scratch_flags == old(buffer).scratch_flags,
        final(buffer).info@ == Seq::new(
            old(buffer).info@.len(),
            |k: int|
                if k < old(buffer).len && first_substituted(old(buffer).info@, k, mask) {
                    with_use_category(old(buffer).info@[k], c)
                } else {
                    old(buffer).info@[k]
                },
        ),
{
    let ghost orig = *buffer;
    let ghost s = orig.info@;
    let len = buffer.len;
    let mut start: usize = 0;
    let mut end = buffer.next_syllable(0);
    while start < len
        invariant
            buffer.wf(),
            buffer.same_but_info(&orig),
            buffer.scratch_flags == orig.scratch_flags,
            len == orig.len,
            s == orig.info@,
            start <= len,
            start < len ==> start < end <= len,
            start < len ==> (start == 0 || s[start - 1].spec_syllable() != s[start as int].spec_syllable()),
            start < len ==> forall|k: int| start <= k < end ==> #[trigger] s[k].spec_syllable() == s[start as int].spec_syllable(),
            start < len ==> (end < len ==> s[end as int].spec_syllable() != s[start as int].spec_syllable()),
            buffer.info@.len() == s.len(),
            forall|k: int|
                0 <= k < s.len() ==> #[trigger] buffer.info@[k] == (if k < start && first_substituted(s, k, mask) {
                    with_use_category(s[k], c)
                } else {
                    s[k]
                }),
        decreases len - start,
    {
        proof {
            assert forall|k: int| start <= k < end implies #[trigger] syllable_start(s, k) == start by {
                lemma_syllable_start(s, start as int, k);
            }
        }
        let ghost cur = buffer.info@;
        assert forall|m: int| start <= m < end implies #[trigger] cur[m] == s[m] by {}
        let found = find_first_substituted(&buffer.info, start, end, mask);
        match found {
            Some(i) => {
                let mut h = buffer.info[i];
                h.set_shaper_byte(c);
                buffer.info.set(i, h);
                proof {
                    assert(h == with_use_category(s[i as int], c));
                }
            },
            None => {},
        }
        proof {
            assert forall|k: int| 0 <= k < s.len() implies #[trigger] buffer.info@[k] == (if k < end && first_substituted(s, k, mask) {
                with_use_category(s[k], c)
            } else {
                s[k]
            }) by {
                if start <= k < end {
                    assert(syllable_start(s, k) == start);
                    assert(cur[k] == s[k]);
                    if first_substituted(s, k, mask) {
                        assert forall|m: int| start <= m < k implies !was_substituted(#[trigger] cur[m]) by {
                            assert(cur[m] == s[m]);
                        }
                        assert forall|m: int| start <= m <= k implies (mask matches Some(x) ==> #[trigger] cur[m].mask & x != 0) by {
                            assert(cur[m] == s[m]);
                        }
                        assert(found == Some(k as usize));
                    } else if found == Some(k as usize) {
                        assert forall|m: int| start <= m < k implies !was_substituted(#[trigger] s[m]) by {
                            assert(cur[m] == s[m]);
                        }
                        assert forall|m: int| start <= m <= k implies (mask matches Some(x) ==> #[trigger] s[m].mask & x != 0) by {
                            assert(cur[m] == s[m]);
                        }
                        assert(false);
                    }
                }
            }
        }
        start = end;
        end = buffer.next_syllable(start);
        proof {
            assert forall|k: int| 0 <= k < s.len() implies #[trigger] buffer.info@[k].spec_syllable()
                == s[k].spec_syllable() by {
                assert(buffer.info@[k].var1 == s[k].var1);
            }
            if start < len {
                assert forall|k: int| start <= k < end implies #[trigger] s[k].spec_syllable()
                    == s[start as int].spec_syllable() by {
                    assert(buffer.info@[k].spec_syllable() == buffer.info@[start as int].spec_syllable());
                }
            }
        }
    }
    assert(buffer.info@ =~= Seq::new(
        s.len(),
        |k: int|
            if k < orig.len && first_substituted(s, k, mask) {
                with_use_category(s[k], c)
            } else {
                s[k]
            },
    ));
}

/// After the repha forms are applied, marks the first substituted record of
/// each syllable as a repha (use category R), if the records of the
/// syllable up to it all carry `rphf_mask`, the mask of the repha forms
/// (nothing when it is 0).
pub fn record_rphf(rphf_mask: u32, buffer: &mut hb_buffer_t)
    requires
        old(buffer).wf(),
    ensures
        final(buffer).wf(),
        final(buffer).same_but_info(old(buffer)),
        final(buffer).scratch_flags == old(buffer).scratch_flags,
        final(buffer).info@ == Seq::new(
            old(buffer).info@.len(),
            |k: int|
                if rphf_mask != 0 && k < old(buffer).len && first_substituted(old(buffer).info@, k, Some(rphf_mask)) {
                    with_use_category(old(buffer).info@[k], 18)
                } else {
                    old(buffer).info@[k]
                },
        ),
{
    if rphf_mask == 0 {
        assert(buffer.info@ =~= Seq::new(
            old(buffer).info@.len(),
            |k: int|
                if rphf_mask != 0 && k < old(buffer).len && first_substituted(old(buffer).info@, k, Some(rphf_mask)) {
                    with_use_category(old(buffer).info@[k], 18)
                } else {
                    old(buffer).info@[k]
                },
        ));
        return;
    }
    mark_first_substituted(buffer, Some(rphf_mask), Category::R.to_u8());
}

/// After the pre-base forms are applied, marks the first substituted record
/// of each syllable as a pre-base vowel (use category VPre), which it
/// behaves like.
pub fn record_pref(buffer: &mut hb_buffer_t)
    requires
        old(buffer).wf(),
    ensures
        final(buffer).wf(),
        final(buffer).same_but_info(old(buffer)),
        final(buffer).scratch_flags == old(buffer).scratch_flags,
        final(buffer).info@ == Seq::new(
            old(buffer).info@.len(),
            |k: int|
                if k < old(buffer).len && first_substituted(old(buffer).info@, k, None) {
                    with_use_category(old(buffer).info@[k], 22)
                } else {
                    old(buffer).info@[k]
                },
        ),
{
    mark_first_substituted(buffer, None, Category::VPre.to_u8());
}

/// Whether a record follows the base of its syllable: its category is one
/// of `BASE_FLAGS`, or it is a halant.
pub open spec fn is_post_base(info: hb_glyph_info_t) -> bool {
    (use_cat(info) < 64 && ((1u64 << (use_cat(info) as u32)) & BASE_FLAGS) != 0) || spec_is_halant_use(info)
}

/// The ligature component of a record (0 on a ligature base).
pub open spec fn spec_lig_comp(info: hb_glyph_info_t) -> u8 {
    let p = info.spec_lig_props();
    if p & 0x10 != 0 {
        0
    } else {
        p & 0x0F
    }
}

/// Whether a record is a pre-base vowel (or vowel modifier) that is the
/// first component of what it came from.
pub open spec fn is_movable_pre_base(info: hb_glyph_info_t) -> bool {
    (use_cat(info) == 22 || use_cat(info) == 23) && spec_lig_comp(info) == 0
}

/// The syllable kinds that reorder: virama-terminated, sakot-terminated,
/// standard and broken clusters.
pub open spec fn reorders(info: hb_glyph_info_t) -> bool {
    let k = info.spec_syllable() & 0x0F;
    k == 1 || k == 2 || k == 3 || k == 8
}

/// The first record from `i` on, before `end`, that follows the base, or
/// the last record.
pub open spec fn repha_stop(s: Seq<hb_glyph_info_t>, i: int, end: int) -> int
    decreases end - i,
{
    if i >= end - 1 || is_post_base(s[i]) {
        i
    } else {
        repha_stop(s, i + 1, end)
    }
}

/// Where a repha at `start` moves: before the first post-base record, or
/// to the end of the syllable.
pub open spec fn repha_target(s: Seq<hb_glyph_info_t>, start: int, end: int) -> int {
    let i = repha_stop(s, start + 1, end);
    if is_post_base(s[i]) {
        i - 1
    } else {
        i
    }
}

/// The first phase of reordering: a repha moves towards the end.
pub open spec fn repha_moved(b0: hb_buffer_t, b1: hb_buffer_t, start: int, end: int) -> bool {
    let s = b0.info@;
    if use_cat(s[start]) == 18 && end - start > 1 {
        let t = repha_target(s, start, end);
        exists|m: hb_buffer_t| merged_or_same(b0, m, start, t + 1) && with_records(m, b1, rotated_left(m.info@, start, t))
    } else {
        with_records(b0, b1, s)
    }
}

/// Where pre-base vowels before record `i` move: after the last halant.
pub open spec fn pre_base_slot(s: Seq<hb_glyph_info_t>, start: int, i: int) -> int
    decreases i - start,
{
    if i <= start {
        start
    } else if spec_is_halant_use(s[i - 1]) {
        i
    } else {
        pre_base_slot(s, start, i - 1)
    }
}

/// The moves of the second phase over records `start..i`: each movable
/// pre-base vowel moves to its slot.
pub open spec fn pre_base_moves(s: Seq<hb_glyph_info_t>, start: int, i: int) -> Seq<(int, int)>
    decreases i - start,
{
    if i <= start {
        seq![]
    } else {
        let r = pre_base_moves(s, start, i - 1);
        let k = i - 1;
        let j = pre_base_slot(s, start, k);
        if !spec_is_halant_use(s[k]) && is_movable_pre_base(s[k]) && j < k {
            r.push((j, k))
        } else {
            r
        }
    }
}

/// `b1` is `b0` after the moves `mv` in order: each merges the clusters it
/// crosses and moves a record back.
pub open spec fn moves_applied(b0: hb_buffer_t, b1: hb_buffer_t, mv: Seq<(int, int)>) -> bool
    decreases mv.len(),
{
    if mv.len() == 0 {
        with_records(b0, b1, b0.info@)
    } else {
        exists|mid: hb_buffer_t|
            moves_applied(b0, mid, mv.drop_last()) && #[trigger] moved_back(mid, b1, mv.last().0, mv.last().1)
    }
}

proof fn lemma_moves_step(b0: hb_buffer_t, mid: hb_buffer_t, m: hb_buffer_t, b1: hb_buffer_t, mv: Seq<(int, int)>)
    requires
        mv.len() > 0,
        moves_applied(b0, mid, mv.drop_last()),
        merged_or_same(mid, m, mv.last().0, mv.last().1 + 1),
        with_records(m, b1, rotated_right(m.info@, mv.last().0, mv.last().1)),
    ensures
        moves_applied(b0, b1, mv),
{
    assert(moved_back(mid, b1, mv.last().0, mv.last().1));
}

proof fn lemma_repha_stop(s: Seq<hb_glyph_info_t>, i: int, end: int)
    requires
        i < end,
    ensures
        i <= repha_stop(s, i, end) < end,
        repha_stop(s, i, end) < end - 1 ==> is_post_base(s[repha_stop(s, i, end)]),
    decreases end - i,
{
    if !(i >= end - 1 || is_post_base(s[i])) {
        lemma_repha_stop(s, i + 1, end);
    }
}

fn is_post_base_exec(info: &hb_glyph_info_t) -> (r: bool)
    ensures
        r == is_post_base(*info),
{
    let c = info.shaper_byte() as u32;
    let f = rb_flag64_unsafe(c);
    assert(c == use_cat(*info) as u32);
    assert(c < 64 ==> f == 1u64 << c);
    assert(c >= 64 ==> (f & BASE_FLAGS) == 0) by {
        if c >= 64 {
            assert(f == 0);
            assert(0u64 & 0x0000_00EE_7FC0_0100u64 == 0) by (bit_vector);
        }
    }
    (f & BASE_FLAGS) != 0 || info.is_halant_use()
}

fn is_movable_pre_base_exec(info: &hb_glyph_info_t) -> (r: bool)
    ensures
        r == is_movable_pre_base(*info),
{
    let c = info.shaper_byte();
    (c == 22 || c == 23) && info.lig_comp() == 0
}

proof fn lemma_no_pre_base_moves(s: Seq<hb_glyph_info_t>, start: int, i: int)
    requires
        forall|j: int| start <= j < i ==> !is_movable_pre_base(#[trigger] s[j]),
    ensures
        pre_base_moves(s, start, i) == Seq::<(int, int)>::empty(),
    decreases i - start,
{
    if i > start {
        lemma_no_pre_base_moves(s, start, i - 1);
    }
}

/// In a syllable that reorders (virama-terminated, sakot-terminated,
/// standard or broken cluster) and starts with a repha followed by a base,
/// with no pre-base vowel, the repha moves after the base: the base comes
/// first.
pub proof fn lemma_repha_moves_after_base(b0: hb_buffer_t, b1: hb_buffer_t, bf: hb_buffer_t, start: int, end: int)
    requires
        b0.wf(),
        0 <= start,
        start + 2 <= end <= b0.len,
        use_cat(b0.info@[start]) == 18,
        use_cat(b0.info@[start + 1]) == 1,
        forall|j: int| start <= j < end ==> use_cat(#[trigger] b0.info@[j]) != 22 && use_cat(b0.info@[j]) != 23,
        repha_moved(b0, b1, start, end),
        moves_applied(b1, bf, pre_base_moves(b1.info@, start, end)),
    ensures
        bf.info@[start].glyph_id == b0.info@[start + 1].glyph_id,
        start + 2 == end || is_post_base(b0.info@[start + 2]) ==> bf.info@[start + 1].glyph_id == b0.info@[start].glyph_id,
{
    let s = b0.info@;
    assert(!is_post_base(s[start + 1])) by {
        assert((1u64 << 1u32) & 0x0000_00EE_7FC0_0100u64 == 0) by (bit_vector);
    }
    lemma_repha_stop(s, start + 1, end);
    let t = repha_target(s, start, end);
    assert(start + 1 <= t < end);
    let m = choose|m: hb_buffer_t| merged_or_same(b0, m, start, t + 1) && with_records(m, b1, rotated_left(m.info@, start, t));
    assert(m.info@.len() == s.len());
    assert forall|j: int| 0 <= j < s.len() implies (#[trigger] m.info@[j]).glyph_id == s[j].glyph_id
        && m.info@[j].var2 == s[j].var2 by {}
    assert forall|j: int| start <= j < end implies !is_movable_pre_base(#[trigger] b1.info@[j]) by {
        if j < t {
            assert(b1.info@[j] == m.info@[j + 1]);
        } else if j == t {
            assert(b1.info@[j] == m.info@[start]);
        }
    }
    lemma_no_pre_base_moves(b1.info@, start, end);
    assert(b1.info@[start] == m.info@[start + 1]);
    if start + 2 == end || is_post_base(s[start + 2]) {
        if start + 2 < end {
            lemma_repha_stop(s, start + 2, end);
            assert(repha_stop(s, start + 1, end) == repha_stop(s, start + 2, end));
        }
        assert(t == start + 1);
        assert(b1.info@[start + 1] == m.info@[start]);
    }
}

/// Reorders the syllable `start..end` for the Universal Shaping Engine,
/// when its kind reorders (see `reorders`): a repha moves towards the end
/// of the syllable (see `repha_moved`), then each pre-base vowel moves back
/// to the start of the syllable or after the last halant (see
/// `pre_base_moves`); every move first merges the clusters it crosses.
pub fn reorder_syllable(start: usize, end: usize, buffer: &mut hb_buffer_t)
    requires
        old(buffer).wf(),
        start < end <= old(buffer).len,
    ensures
        final(buffer).wf(),
        final(buffer).len == old(buffer).len,
        !reorders(old(buffer).info@[start as int]) ==> with_records(*old(buffer), *final(buffer), old(buffer).info@),
        ({
            let k = old(buffer).info@[start as int].spec_syllable() & 0x0F;
            (k == 8 || k == 3 || k == 2 || k == 1) && start + 2 <= end && use_cat(old(buffer).info@[start as int]) == 18
                && use_cat(old(buffer).info@[start + 1]) == 1
                && (forall|j: int| start <= j < end ==> use_cat(#[trigger] old(buffer).info@[j]) != 22 && use_cat(
                old(buffer).info@[j],
            ) != 23)
        }) ==> final(buffer).info@[start as int].glyph_id == old(buffer).info@[start + 1].glyph_id && (start + 2 == end
            || is_post_base(old(buffer).info@[start + 2]) ==> final(buffer).info@[start + 1].glyph_id == old(
            buffer,
        ).info@[start as int].glyph_id),
        reorders(old(buffer).info@[start as int]) ==> exists|b1: hb_buffer_t|
            #[trigger] repha_moved(*old(buffer), b1, start as int, end as int) && moves_applied(
                b1,
                *final(buffer),
                pre_base_moves(b1.info@, start as int, end as int),
            ),
{
    let sy: u8 = buffer.info[start].syllable();
    let syllable_type = (sy & 0x0F) as u32;
    proof {
        let t = syllable_type;
        assert(t < 16 ==> (((1u32 << t) & ((1u32 << 1u32) | (1u32 << 2u32) | (1u32 << 3u32) | (1u32 << 8u32))) == 0 <==> !(t == 1 || t == 2 || t == 3 || t == 8))) by (bit_vector);
        assert(t < 16) by (bit_vector)
            requires
                t == ((sy & 0x0F) as u32),
        ;
    }
    if (rb_flag_unsafe(syllable_type) & (rb_flag(1) | rb_flag(2) | rb_flag(3) | rb_flag(8))) == 0 {
        assert(with_records(*old(buffer), *buffer, old(buffer).info@));
        return;
    }
    let ghost b0 = *buffer;
    // Move a repha forward.
    if buffer.info[start].shaper_byte() == 18 && end - start > 1 {
        let mut i = start + 1;
        while i < end - 1 && !is_post_base_exec(&buffer.info[i])
            invariant
                *buffer == b0,
                start + 1 <= i <= end - 1,
                end <= b0.len <= b0.info@.len(),
                repha_stop(b0.info@, i as int, end as int) == repha_stop(b0.info@, start + 1, end as int),
            decreases end - i,
        {
            i = i + 1;
        }
        proof {
            lemma_repha_stop(b0.info@, start + 1, end as int);
        }
        let post = is_post_base_exec(&buffer.info[i]);
        let t = if post { i - 1 } else { i };
        merge_range(buffer, start, t + 1);
        rotate_left_records(buffer, start, t);
    }
    let ghost b1 = *buffer;
    proof {
        assert(repha_moved(b0, b1, start as int, end as int));
    }
    // Move pre-base vowels back.
    let mut j = start;
    let mut i = start;
    while i < end
        invariant
            start <= j <= i <= end <= b1.len,
            b1.len <= b1.info@.len(),
            buffer.wf(),
            buffer.len == b1.len,
            buffer.info@.len() == b1.info@.len(),
            j as int == pre_base_slot(b1.info@, start as int, i as int),
            moves_applied(b1, *buffer, pre_base_moves(b1.info@, start as int, i as int)),
            forall|k: int| i <= k < b1.info@.len() ==> (#[trigger] buffer.info@[k]).var1 == b1.info@[k].var1 && buffer.info@[k].var2 == b1.info@[k].var2,
        decreases end - i,
    {
        let ghost cur = *buffer;
        let ghost mv = pre_base_moves(b1.info@, start as int, i as int);
        if buffer.info[i].is_halant_use() {
            j = i + 1;
            proof {
                assert(pre_base_moves(b1.info@, start as int, i + 1) == mv);
                assert(moves_applied(b1, *buffer, mv));
            }
        } else if j < i && is_movable_pre_base_exec(&buffer.info[i]) {
            merge_range(buffer, j, i + 1);
            let ghost m = *buffer;
            rotate_right_records(buffer, j, i);
            proof {
                assert(cur.info@[i as int].var1 == b1.info@[i as int].var1 && cur.info@[i as int].var2 == b1.info@[i as int].var2);
                assert(!spec_is_halant_use(b1.info@[i as int]));
                assert(is_movable_pre_base(b1.info@[i as int]));
                let nmv = pre_base_moves(b1.info@, start as int, i + 1);
                assert(nmv == mv.push((j as int, i as int)));
                assert(nmv.drop_last() =~= mv);
                assert(moves_applied(b1, cur, nmv.drop_last()));
                assert(merged_or_same(cur, m, j as int, i + 1) && with_records(m, *buffer, rotated_right(m.info@, j as int, i as int)));
                lemma_moves_step(b1, cur, m, *buffer, nmv);
                assert forall|k: int| i + 1 <= k < b1.info@.len() implies (#[trigger] buffer.info@[k]).var1 == b1.info@[k].var1 && buffer.info@[k].var2 == b1.info@[k].var2 by {
                    assert(buffer.info@[k] == m.info@[k]);
                }
            }
        } else {
            proof {
                assert(pre_base_moves(b1.info@, start as int, i + 1) == mv);
            }
        }
        i = i + 1;
    }
    proof {
        let k = b0.info@[start as int].spec_syllable() & 0x0F;
        if (k == 8 || k == 3 || k == 2 || k == 1) && start + 2 <= end && use_cat(b0.info@[start as int]) == 18
            && use_cat(b0.info@[start + 1]) == 1
            && (forall|j: int| start <= j < end ==> use_cat(#[trigger] b0.info@[j]) != 22 && use_cat(b0.info@[j]) != 23) {
            lemma_repha_moves_after_base(b0, b1, *buffer, start as int, end as int);
        }
    }
}

/// Finds the syllables (see `find_syllables`), marks each unsafe to break,
/// then adds the repha mask `rphf_mask` (see `setup_rphf_mask`) and the
/// topographical masks `topographical_masks` (see
/// `setup_topographical_masks`).
pub fn setup_syllables(rphf_mask: u32, topographical_masks: [u32; 4], buffer: &mut hb_buffer_t)
    requires
        old(buffer).wf(),
    ensures
        final(buffer).wf(),
        final(buffer).same_but_info(old(buffer)),
        ({
            let len = old(buffer).len as int;
            let labelled = label_tokens(
                old(buffer).info@,
                use_tokens(old(buffer).info@, len),
                included_positions(old(buffer).info@, len, len).push(old(buffer).len),
            );
            let flagged = syllables_flagged(labelled, old(buffer).scratch_flags, 0, len);
            &&& final(buffer).info@ == topographically_masked(rphf_masked(flagged.0, len, rphf_mask), len, topographical_masks)
            &&& final(buffer).scratch_flags == flagged.1
        }),
{
    let ghost b0 = *buffer;
    find_syllables(buffer);
    let ghost b1 = *buffer;
    buffer.unsafe_to_break_syllables();
    let ghost b2 = *buffer;
    proof {
        assert(b1.len == b0.len);
        assert((b2.info@, b2.scratch_flags) == syllables_flagged(b1.info@, b1.scratch_flags, 0, b1.len as int));
    }
    setup_rphf_mask(rphf_mask, buffer);
    setup_topographical_masks(topographical_masks, buffer);
}

/// `b1` is what `reorder_syllable` makes of `b0` for the syllable
/// `start..end`.
pub open spec fn syllable_reordered(b0: hb_buffer_t, b1: hb_buffer_t, start: int, end: int) -> bool {
    if reorders(b0.info@[start]) {
        exists|bm: hb_buffer_t|
            #[trigger] repha_moved(b0, bm, start, end) && moves_applied(bm, b1, pre_base_moves(bm.info@, start, end))
    } else {
        with_records(b0, b1, b0.info@)
    }
}

/// `bf` is what reordering each syllable of the first `len` records of `b`,
/// from `start` on, one after the other, makes of `b`; each syllable ends
/// where the buffer reordered so far says (see `syllable_end`).
pub open spec fn syllables_reordered(b: hb_buffer_t, bf: hb_buffer_t, start: int, len: int) -> bool
    decreases len - start,
{
    if 0 <= start < len && len <= b.info@.len() {
        let end = syllable_end(b.info@, start, len);
        proof {
            lemma_syllable_run_bounds(b.info@, start + 1, len, b.info@[start].syllable());
        }
        exists|b2: hb_buffer_t|
            #[trigger] syllable_reordered(b, b2, start, end) && syllables_reordered(b2, bf, end, len)
    } else {
        bf == b
    }
}

/// Inserts a dotted circle, of use category `dottedcircle_category`, into
/// each broken syllable, after its rephas (see `insert_dotted_circles`),
/// then reorders every syllable (see `reorder_syllable`).
pub fn reorder(dottedcircle_glyph: Option<u32>, dottedcircle_category: u8, buffer: &mut hb_buffer_t)
    requires
        old(buffer).wf(),
        old(buffer).len + circle_count(old(buffer).info@, old(buffer).len as int, 0, 0, 8, Some(18u8))
            <= old(buffer).max_len,
    ensures
        final(buffer).wf(),
        exists|b1: hb_buffer_t|
            #[trigger] circles_inserted(*old(buffer), b1, dottedcircle_glyph, 8, dottedcircle_category, Some(18u8), None)
                && syllables_reordered(b1, *final(buffer), 0, b1.len as int),
{
    insert_dotted_circles(
        dottedcircle_glyph,
        buffer,
        SyllableType::BrokenCluster.to_u8(),
        dottedcircle_category,
        Some(Category::R.to_u8()),
        None,
    );
    let ghost b1 = *buffer;
    let len = buffer.len;
    let mut start: usize = 0;
    let mut end = buffer.next_syllable(0);
    while start < len
        invariant
            buffer.wf(),
            buffer.len == len,
            len == b1.len,
            start <= len,
            end == syllable_end(buffer.info@, start as int, len as int),
            forall|bf: hb_buffer_t|
                #[trigger] syllables_reordered(*buffer, bf, start as int, len as int)
                    ==> syllables_reordered(b1, bf, 0, len as int),
        decreases len - start,
    {
        proof {
            lemma_syllable_run_bounds(buffer.info@, start + 1, len as int, buffer.info@[start as int].syllable());
        }
        let ghost cur = *buffer;
        reorder_syllable(start, end, buffer);
        proof {
            assert(syllable_reordered(cur, *buffer, start as int, end as int));
            assert forall|bf: hb_buffer_t|
                #[trigger] syllables_reordered(*buffer, bf, end as int, len as int)
                    implies syllables_reordered(b1, bf, 0, len as int) by {
                assert(syllables_reordered(cur, bf, start as int, len as int));
            }
        }
        start = end;
        end = buffer.next_syllable(start);
    }
    proof {
        assert(syllables_reordered(*buffer, *buffer, start as int, len as int));
    }
}

} // verus!
