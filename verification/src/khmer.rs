//! Reordering of Khmer syllables.
//!
//! After the syllables are found, each consonant syllable (and each broken
//! cluster) is reordered: its records after the first get the masks of the
//! post-base features, a Coeng followed by Ro moves to the start of the
//! syllable (marked for the pre-base forms, the records after it for the
//! conjunct forms after Ro), and each pre-base vowel moves to the start of
//! the syllable. Every move merges the clusters it crosses first.

use vstd::prelude::*;
use crate::buffer::{hb_buffer_t, syllables_flagged};
use crate::khmer_machine::{find_syllables_khmer, khmer_tokens, syllable_kind_code, SyllableType};
use crate::syllable_machine::{has_kind, identity_positions, label_tokens};
use crate::glyph::SCRATCH_HAS_BROKEN_SYLLABLE;
use crate::glyph::{byte2, char_from_u32, is_scalar};
use crate::hebrew::{canonical_composition, compose_pair};
use crate::unicode::{gc_is_mark, GeneralCategory};
use crate::buffer_moves::{
    merged_or_same, with_records, block_moved, moved_back, masks_or, merge_range, add_masks,
    move_block_records, rotate_right_records, rotated_right,
};

verus! {

/// Khmer category of a Coeng (the subscript sign), the category of a halant
/// as the Khmer syllable machine reads it.
pub const CATEGORY_COENG: u8 = 4;
/// Khmer category of the consonant Ro.
pub const CATEGORY_RA: u8 = 15;
/// Khmer category of a pre-base vowel.
pub const CATEGORY_V_PRE: u8 = 22;

/// Index of the mask of the pre-base forms (`pref`).
pub const KHMER_PREF: usize = 0;
/// Index of the mask of the below-base forms (`blwf`).
pub const KHMER_BLWF: usize = 1;
/// Index of the mask of the above-base forms (`abvf`).
pub const KHMER_ABVF: usize = 2;
/// Index of the mask of the post-base forms (`pstf`).
pub const KHMER_PSTF: usize = 3;
/// Index of the mask of the conjunct forms after Ro (`cfar`).
pub const KHMER_CFAR: usize = 4;

/// The masks of the Khmer features, in the order of the features: the
/// five basic features (`pref`, `blwf`, `abvf`, `pstf`, `cfar`), then the
/// four global ones (`pres`, `abvs`, `blws`, `psts`).
pub struct KhmerShapePlan {
    pub mask_array: [u32; 9],
}

/// The Khmer category of a record.
pub open spec fn khmer_category(info: crate::glyph::hb_glyph_info_t) -> u8 {
    byte2(info.var2)
}

/// The masks that every record of a syllable after the first gets.
pub open spec fn post_base_mask(masks: [u32; 9]) -> u32 {
    masks[KHMER_BLWF as int] | masks[KHMER_ABVF as int] | masks[KHMER_PSTF as int]
}

/// `s` with the conjunct-after-Ro mask `c` added to `s[a..b]`, where `c`
/// is not zero.
pub open spec fn cfar_marked(
    s: Seq<crate::glyph::hb_glyph_info_t>,
    a: int,
    b: int,
    c: u32,
) -> Seq<crate::glyph::hb_glyph_info_t> {
    if c != 0 {
        masks_or(s, a, b, c)
    } else {
        s
    }
}

/// The second half of moving a Coeng and Ro at `i` to `start`: the
/// clusters of `start..i + 2` merge, the pair moves to `start`, and the
/// records after it up to `end` get the conjunct-after-Ro mask.
pub open spec fn coeng_ro_tail(p: hb_buffer_t, b1: hb_buffer_t, masks: [u32; 9], start: int, end: int, i: int) -> bool {
    exists|m: hb_buffer_t|
        merged_or_same(p, m, start, i + 2) && #[trigger] with_records(
            m,
            b1,
            cfar_marked(block_moved(m.info@, start, i, i + 2), i + 2, end, masks[KHMER_CFAR as int]),
        )
}

/// `b1` is `b0` after the Coeng and Ro at `i` get the pre-base mask and
/// move to `start` (see `coeng_ro_tail`).
pub open spec fn coeng_ro_moved(b0: hb_buffer_t, b1: hb_buffer_t, masks: [u32; 9], start: int, end: int, i: int) -> bool {
    exists|p: hb_buffer_t|
        #[trigger] with_records(b0, p, masks_or(b0.info@, i, i + 2, masks[KHMER_PREF as int]))
            && coeng_ro_tail(p, b1, masks, start, end, i)
}

/// `bf` is what the scan of the syllable `start..end` makes of `b` from
/// record `i` on, with `nc` Coengs counted so far.
pub open spec fn khmer_scan(
    b: hb_buffer_t,
    bf: hb_buffer_t,
    masks: [u32; 9],
    start: int,
    end: int,
    i: int,
    nc: int,
) -> bool
    decreases end - i,
{
    if i >= end {
        with_records(b, bf, b.info@)
    } else {
        let s = b.info@;
        if khmer_category(s[i]) == CATEGORY_COENG && nc <= 2 && i + 1 < end {
            if khmer_category(s[i + 1]) == CATEGORY_RA {
                exists|b2: hb_buffer_t|
                    #[trigger] coeng_ro_moved(b, b2, masks, start, end, i) && khmer_scan(b2, bf, masks, start, end, i + 1, 2)
            } else {
                khmer_scan(b, bf, masks, start, end, i + 1, nc + 1)
            }
        } else if khmer_category(s[i]) == CATEGORY_V_PRE {
            exists|b2: hb_buffer_t|
                #[trigger] moved_back(b, b2, start, i) && khmer_scan(b2, bf, masks, start, end, i + 1, nc)
        } else {
            khmer_scan(b, bf, masks, start, end, i + 1, nc)
        }
    }
}

/// The number of Coengs among records `a..b` of `s`.
pub open spec fn coeng_count(s: Seq<crate::glyph::hb_glyph_info_t>, a: int, b: int) -> int
    decreases b - a,
{
    if a >= b {
        0
    } else {
        (if khmer_category(s[a]) == CATEGORY_COENG { 1int } else { 0int }) + coeng_count(s, a + 1, b)
    }
}

proof fn lemma_coeng_count_nonneg(s: Seq<crate::glyph::hb_glyph_info_t>, a: int, b: int)
    ensures
        coeng_count(s, a, b) >= 0,
    decreases b - a,
{
    if a < b {
        lemma_coeng_count_nonneg(s, a + 1, b);
    }
}

/// Records with the same categories have the same Coengs.
proof fn lemma_coeng_count_same(s: Seq<crate::glyph::hb_glyph_info_t>, t: Seq<crate::glyph::hb_glyph_info_t>, a: int, b: int)
    requires
        s.len() == t.len(),
        0 <= a,
        b <= s.len(),
        forall|k: int| 0 <= k < s.len() ==> (#[trigger] t[k]).var2 == s[k].var2,
    ensures
        coeng_count(s, a, b) == coeng_count(t, a, b),
    decreases b - a,
{
    if a < b {
        lemma_coeng_count_same(s, t, a + 1, b);
    }
}

/// Adding masks keeps each record's character and categories.
proof fn lemma_masks_or_keeps(s: Seq<crate::glyph::hb_glyph_info_t>, a: int, b: int, m: u32)
    ensures
        masks_or(s, a, b, m).len() == s.len(),
        forall|k: int| 0 <= k < s.len() ==> (#[trigger] masks_or(s, a, b, m)[k]).glyph_id == s[k].glyph_id
            && masks_or(s, a, b, m)[k].var2 == s[k].var2,
{
}

/// Merging clusters keeps each record's character and categories.
proof fn lemma_merged_keeps(b0: hb_buffer_t, b1: hb_buffer_t, a: int, e: int)
    requires
        merged_or_same(b0, b1, a, e),
    ensures
        b1.info@.len() == b0.info@.len(),
        forall|k: int| 0 <= k < b0.info@.len() ==> (#[trigger] b1.info@[k]).glyph_id == b0.info@[k].glyph_id
            && b1.info@[k].var2 == b0.info@[k].var2,
{
}

/// A scan that meets neither a pre-base vowel nor a Ro after its first
/// record moves nothing.
proof fn lemma_scan_moves_nothing(b: hb_buffer_t, bf: hb_buffer_t, masks: [u32; 9], start: int, end: int, i: int, nc: int)
    requires
        khmer_scan(b, bf, masks, start, end, i, nc),
        0 <= i,
        end <= b.info@.len(),
        forall|k: int| i <= k < end ==> khmer_category(#[trigger] b.info@[k]) != CATEGORY_V_PRE,
        forall|k: int| i < k < end ==> khmer_category(#[trigger] b.info@[k]) != CATEGORY_RA,
    ensures
        bf.info@ == b.info@,
    decreases end - i,
{
    if i < end {
        let s = b.info@;
        if nc <= 2 && i + 1 < end && khmer_category(s[i]) == CATEGORY_COENG {
            assert(khmer_category(s[i + 1]) != CATEGORY_RA);
            lemma_scan_moves_nothing(b, bf, masks, start, end, i + 1, nc + 1);
        } else {
            lemma_scan_moves_nothing(b, bf, masks, start, end, i + 1, nc);
        }
    }
}

/// The scan from record `j`, with `nc` Coengs counted, brings the Coeng and
/// Ro at `i` to the start of the syllable, when with the Coengs still to
/// come before `i` it is at most the third Coeng, no other Ro and no
/// pre-base vowel is in the syllable.
proof fn lemma_scan_brings_coeng_ro(
    b: hb_buffer_t,
    bf: hb_buffer_t,
    masks: [u32; 9],
    start: int,
    end: int,
    j: int,
    nc: int,
    i: int,
)
    requires
        khmer_scan(b, bf, masks, start, end, j, nc),
        0 <= start < j <= i,
        i + 1 < end <= b.info@.len(),
        khmer_category(b.info@[i]) == CATEGORY_COENG,
        khmer_category(b.info@[i + 1]) == CATEGORY_RA,
        0 <= nc,
        nc + coeng_count(b.info@, j, i) <= 2,
        forall|k: int| start <= k < end ==> khmer_category(#[trigger] b.info@[k]) != CATEGORY_V_PRE,
        forall|k: int| start <= k < end && k != i + 1 ==> khmer_category(#[trigger] b.info@[k]) != CATEGORY_RA,
    ensures
        bf.info@[start].glyph_id == b.info@[i].glyph_id,
        bf.info@[start + 1].glyph_id == b.info@[i + 1].glyph_id,
    decreases i - j,
{
    let s = b.info@;
    if j < i {
        if khmer_category(s[j]) == CATEGORY_COENG {
            assert(coeng_count(s, j, i) == 1 + coeng_count(s, j + 1, i));
            lemma_coeng_count_nonneg(s, j + 1, i);
            assert(nc <= 1);
            assert(khmer_category(s[j + 1]) != CATEGORY_RA);
            assert(khmer_scan(b, bf, masks, start, end, j + 1, nc + 1));
            lemma_scan_brings_coeng_ro(b, bf, masks, start, end, j + 1, nc + 1, i);
        } else {
            assert(coeng_count(s, j, i) == coeng_count(s, j + 1, i));
            lemma_scan_brings_coeng_ro(b, bf, masks, start, end, j + 1, nc, i);
        }
    } else {
        let b2 = choose|b2: hb_buffer_t|
            #[trigger] coeng_ro_moved(b, b2, masks, start, end, i) && khmer_scan(b2, bf, masks, start, end, i + 1, 2);
        let p = choose|p: hb_buffer_t|
            #[trigger] with_records(b, p, masks_or(s, i, i + 2, masks[KHMER_PREF as int])) && coeng_ro_tail(p, b2, masks, start, end, i);
        let m = choose|m: hb_buffer_t|
            merged_or_same(p, m, start, i + 2) && #[trigger] with_records(
                m,
                b2,
                cfar_marked(block_moved(m.info@, start, i, i + 2), i + 2, end, masks[KHMER_CFAR as int]),
            );
        lemma_masks_or_keeps(s, i, i + 2, masks[KHMER_PREF as int]);
        lemma_merged_keeps(p, m, start, i + 2);
        let bl = block_moved(m.info@, start, i, i + 2);
        lemma_masks_or_keeps(bl, i + 2, end, masks[KHMER_CFAR as int]);
        let t = b2.info@;
        assert(t.len() == s.len());
        assert(t[start].glyph_id == s[i].glyph_id);
        assert(t[start + 1].glyph_id == s[i + 1].glyph_id);
        assert forall|k: int| i + 1 <= k < end implies khmer_category(#[trigger] t[k]) != CATEGORY_V_PRE && (k > i + 1
            ==> khmer_category(t[k]) != CATEGORY_RA) by {
            if k < i + 2 {
                assert(t[k].var2 == s[k - 2].var2);
            } else {
                assert(t[k].var2 == s[k].var2);
            }
        }
        lemma_scan_moves_nothing(b2, bf, masks, start, end, i + 1, 2);
    }
}

/// The scan from record `j` brings the pre-base vowel at `i` to the start
/// of the syllable, when it is the syllable's only pre-base vowel and the
/// syllable has no Ro.
proof fn lemma_scan_brings_pre_base_vowel(
    b: hb_buffer_t,
    bf: hb_buffer_t,
    masks: [u32; 9],
    start: int,
    end: int,
    j: int,
    nc: int,
    i: int,
)
    requires
        khmer_scan(b, bf, masks, start, end, j, nc),
        0 <= start < j <= i < end <= b.info@.len(),
        khmer_category(b.info@[i]) == CATEGORY_V_PRE,
        forall|k: int| start <= k < end && k != i ==> khmer_category(#[trigger] b.info@[k]) != CATEGORY_V_PRE,
        forall|k: int| start <= k < end ==> khmer_category(#[trigger] b.info@[k]) != CATEGORY_RA,
    ensures
        bf.info@[start].glyph_id == b.info@[i].glyph_id,
    decreases i - j,
{
    let s = b.info@;
    if j < i {
        if nc <= 2 && j + 1 < end && khmer_category(s[j]) == CATEGORY_COENG {
            lemma_scan_brings_pre_base_vowel(b, bf, masks, start, end, j + 1, nc + 1, i);
        } else {
            lemma_scan_brings_pre_base_vowel(b, bf, masks, start, end, j + 1, nc, i);
        }
    } else {
        assert(khmer_category(s[i]) != CATEGORY_COENG);
        let b2 = choose|b2: hb_buffer_t| #[trigger] moved_back(b, b2, start, i) && khmer_scan(b2, bf, masks, start, end, i + 1, nc);
        let m = choose|m: hb_buffer_t|
            merged_or_same(b, m, start, i + 1) && #[trigger] with_records(m, b2, rotated_right(m.info@, start, i));
        lemma_merged_keeps(b, m, start, i + 1);
        let t = b2.info@;
        assert(t[start].glyph_id == s[i].glyph_id);
        assert forall|k: int| i + 1 <= k < end implies khmer_category(#[trigger] t[k]) != CATEGORY_V_PRE
            && khmer_category(t[k]) != CATEGORY_RA by {
            assert(t[k].var2 == s[k].var2);
        }
        lemma_scan_moves_nothing(b2, bf, masks, start, end, i + 1, nc);
    }
}

/// Reorders the consonant syllable (or broken cluster) `start..end`: the
/// records after the first get the post-base masks, then the records are
/// scanned from the second on (see `khmer_scan`).
pub fn reorder_consonant_syllable(plan: &KhmerShapePlan, start: usize, end: usize, buffer: &mut hb_buffer_t)
    requires
        old(buffer).wf(),
        start < end <= old(buffer).len,
    ensures
        final(buffer).wf(),
        exists|bm: hb_buffer_t|
            #[trigger] with_records(*old(buffer), bm, masks_or(old(buffer).info@, start + 1, end as int, post_base_mask(plan.mask_array)))
                && khmer_scan(bm, *final(buffer), plan.mask_array, start as int, end as int, start + 1, 0),
        forall|i: int|
            start < i && i + 1 < end && khmer_category(#[trigger] old(buffer).info@[i]) == 4 && khmer_category(
                old(buffer).info@[i + 1],
            ) == 15 && coeng_count(old(buffer).info@, start + 1, i) <= 2 && (forall|k: int|
                start <= k < end ==> khmer_category(#[trigger] old(buffer).info@[k]) != 22 && (k != i + 1
                    ==> khmer_category(old(buffer).info@[k]) != 15)) ==> final(buffer).info@[start as int].glyph_id
                == old(buffer).info@[i].glyph_id && final(buffer).info@[start + 1].glyph_id == old(
                buffer,
            ).info@[i + 1].glyph_id,
        forall|i: int|
            start < i < end && khmer_category(#[trigger] old(buffer).info@[i]) == 22 && (forall|k: int|
                start <= k < end ==> khmer_category(#[trigger] old(buffer).info@[k]) != 15 && (k != i
                    ==> khmer_category(old(buffer).info@[k]) != 22)) ==> final(buffer).info@[start as int].glyph_id
                == old(buffer).info@[i].glyph_id,
{
    let ghost masks = plan.mask_array;
    let mask = plan.mask_array[KHMER_BLWF] | plan.mask_array[KHMER_ABVF] | plan.mask_array[KHMER_PSTF];
    assert(mask == post_base_mask(masks));
    add_masks(buffer, start + 1, end, mask);
    let ghost bm = *buffer;
    assert(with_records(*old(buffer), bm, masks_or(old(buffer).info@, start + 1, end as int, post_base_mask(plan.mask_array))));
    let mut num_coengs: usize = 0;
    let mut i = start + 1;
    while i < end
        invariant
            buffer.wf(),
            masks == plan.mask_array,
            start < i <= end <= buffer.len,
            buffer.len == bm.len,
            num_coengs <= 3,
            forall|bf: hb_buffer_t|
                #[trigger] khmer_scan(*buffer, bf, masks, start as int, end as int, i as int, num_coengs as int)
                    ==> khmer_scan(bm, bf, masks, start as int, end as int, start + 1, 0),
        decreases end - i,
    {
        let ghost cur = *buffer;
        let ghost nc0 = num_coengs as int;
        let c = buffer.info[i].shaper_byte();
        if c == CATEGORY_COENG && num_coengs <= 2 && i + 1 < end {
            num_coengs = num_coengs + 1;
            if buffer.info[i + 1].shaper_byte() == CATEGORY_RA {
                add_masks(buffer, i, i + 2, plan.mask_array[KHMER_PREF]);
                let ghost p = *buffer;
                merge_range(buffer, start, i + 2);
                let ghost m = *buffer;
                move_block_records(buffer, start, i, i + 2);
                let ghost mb = *buffer;
                if plan.mask_array[KHMER_CFAR] != 0 {
                    add_masks(buffer, i + 2, end, plan.mask_array[KHMER_CFAR]);
                }
                num_coengs = 2;
                proof {
                    assert(with_records(m, *buffer, cfar_marked(block_moved(m.info@, start as int, i as int, i + 2), i + 2, end as int, masks[KHMER_CFAR as int])));
                    assert(coeng_ro_tail(p, *buffer, masks, start as int, end as int, i as int));
                    assert(coeng_ro_moved(cur, *buffer, masks, start as int, end as int, i as int));
                    assert forall|bf: hb_buffer_t|
                        #[trigger] khmer_scan(*buffer, bf, masks, start as int, end as int, i + 1, 2)
                            implies khmer_scan(bm, bf, masks, start as int, end as int, start + 1, 0) by {
                        assert(khmer_scan(cur, bf, masks, start as int, end as int, i as int, nc0));
                    }
                }
            } else {
                proof {
                    assert forall|bf: hb_buffer_t|
                        #[trigger] khmer_scan(*buffer, bf, masks, start as int, end as int, i + 1, nc0 + 1)
                            implies khmer_scan(bm, bf, masks, start as int, end as int, start + 1, 0) by {
                        assert(khmer_scan(cur, bf, masks, start as int, end as int, i as int, nc0));
                    }
                }
            }
        } else if c == CATEGORY_V_PRE {
            merge_range(buffer, start, i + 1);
            rotate_right_records(buffer, start, i);
            proof {
                assert(moved_back(cur, *buffer, start as int, i as int));
                assert forall|bf: hb_buffer_t|
                    #[trigger] khmer_scan(*buffer, bf, masks, start as int, end as int, i + 1, nc0)
                        implies khmer_scan(bm, bf, masks, start as int, end as int, start + 1, 0) by {
                    assert(khmer_scan(cur, bf, masks, start as int, end as int, i as int, nc0));
                }
            }
        } else {
            proof {
                assert forall|bf: hb_buffer_t|
                    #[trigger] khmer_scan(*buffer, bf, masks, start as int, end as int, i + 1, nc0)
                        implies khmer_scan(bm, bf, masks, start as int, end as int, start + 1, 0) by {
                    assert(khmer_scan(cur, bf, masks, start as int, end as int, i as int, nc0));
                }
            }
        }
        i = i + 1;
    }
    proof {
        assert(khmer_scan(*buffer, *buffer, masks, start as int, end as int, i as int, num_coengs as int));
        assert(khmer_scan(bm, *buffer, masks, start as int, end as int, start + 1, 0));
        let s0 = old(buffer).info@;
        lemma_masks_or_keeps(s0, start + 1, end as int, post_base_mask(masks));
        assert forall|i: int|
            start < i && i + 1 < end && khmer_category(#[trigger] s0[i]) == 4 && khmer_category(s0[i + 1]) == 15
                && coeng_count(s0, start + 1, i) <= 2 && (forall|k: int|
                start <= k < end ==> khmer_category(#[trigger] s0[k]) != 22 && (k != i + 1 ==> khmer_category(s0[k])
                    != 15)) implies buffer.info@[start as int].glyph_id == s0[i].glyph_id && buffer.info@[start
            + 1].glyph_id == s0[i + 1].glyph_id by {
            lemma_coeng_count_same(s0, bm.info@, start + 1, i);
            lemma_scan_brings_coeng_ro(bm, *buffer, masks, start as int, end as int, start + 1, 0, i);
        }
        assert forall|i: int|
            start < i < end && khmer_category(#[trigger] s0[i]) == 22 && (forall|k: int|
                start <= k < end ==> khmer_category(#[trigger] s0[k]) != 15 && (k != i ==> khmer_category(s0[k])
                    != 22)) implies buffer.info@[start as int].glyph_id == s0[i].glyph_id by {
            lemma_scan_brings_pre_base_vowel(bm, *buffer, masks, start as int, end as int, start + 1, 0, i);
        }
    }
}

/// The kind of a syllable byte: its low four bits.
pub open spec fn syllable_kind(info: crate::glyph::hb_glyph_info_t) -> u8 {
    info.spec_syllable() & 0x0F
}

/// Reorders the syllable `start..end` by its kind: consonant syllables and
/// broken clusters are reordered (see `reorder_consonant_syllable`), other
/// clusters stay as they are. Only the three Khmer kinds occur.
pub fn reorder_syllable(plan: &KhmerShapePlan, start: usize, end: usize, buffer: &mut hb_buffer_t)
    requires
        old(buffer).wf(),
        start < end <= old(buffer).len,
        syllable_kind(old(buffer).info@[start as int]) <= 2,
    ensures
        final(buffer).wf(),
        syllable_kind(old(buffer).info@[start as int]) == 2 ==> with_records(*old(buffer), *final(buffer), old(buffer).info@),
        syllable_kind(old(buffer).info@[start as int]) < 2 ==> exists|bm: hb_buffer_t|
            #[trigger] with_records(*old(buffer), bm, masks_or(old(buffer).info@, start + 1, end as int, post_base_mask(plan.mask_array)))
                && khmer_scan(bm, *final(buffer), plan.mask_array, start as int, end as int, start + 1, 0),
{
    let kind = buffer.info[start].syllable() & 0x0F;
    if kind == 0 || kind == 1 {
        reorder_consonant_syllable(plan, start, end, buffer);
    }
}

/// Whether `ab` is a Khmer split vowel (a matra written in two parts) that
/// Unicode gives no decomposition.
pub open spec fn is_split_matra(ab: u32) -> bool {
    ab == 0x17BE || ab == 0x17BF || ab == 0x17C0 || ab == 0x17C4 || ab == 0x17C5
}

/// Decomposes `ab` for Khmer: a split vowel into the pre-base part U+17C1
/// and itself; any other character as the character database does, which
/// `unicode` holds.
pub fn decompose(ab: u32, unicode: Option<(u32, u32)>) -> (r: Option<(u32, u32)>)
    ensures
        is_split_matra(ab) ==> r == Some((0x17C1u32, ab)),
        !is_split_matra(ab) ==> r == unicode,
{
    if ab == 0x17BE || ab == 0x17BF || ab == 0x17C0 || ab == 0x17C4 || ab == 0x17C5 {
        Some((0x17C1, ab))
    } else {
        unicode
    }
}

/// Composes `a` and `b` for Khmer: nothing when `a` (of general category
/// `a_category`) is a mark, so that split vowels are not put back together;
/// else their canonical composition.
pub fn compose(a: u32, a_category: GeneralCategory, b: u32) -> (r: Option<u32>)
    requires
        is_scalar(a),
        is_scalar(b),
    ensures
        gc_is_mark(a_category) ==> r is None,
        !gc_is_mark(a_category) ==> r == canonical_composition(a, b),
{
    if a_category.is_mark() {
        return None;
    }
    let a_char = match char_from_u32(a) {
        Some(c) => c,
        None => {
            return None;
        },
    };
    let b_char = match char_from_u32(b) {
        Some(c) => c,
        None => {
            return None;
        },
    };
    compose_pair(a_char, b_char)
}

/// Finds the Khmer syllables (see `find_syllables_khmer`) and marks each
/// unsafe to break.
pub fn setup_syllables(buffer: &mut hb_buffer_t)
    requires
        old(buffer).wf(),
    ensures
        final(buffer).wf(),
        final(buffer).same_but_info(old(buffer)),
        ({
            let toks = khmer_tokens(old(buffer).info@, old(buffer).len as int);
            let scratch = if has_kind(toks, syllable_kind_code(SyllableType::BrokenCluster)) {
                old(buffer).scratch_flags | SCRATCH_HAS_BROKEN_SYLLABLE
            } else {
                old(buffer).scratch_flags
            };
            (final(buffer).info@, final(buffer).scratch_flags) == syllables_flagged(
                label_tokens(old(buffer).info@, toks, identity_positions(old(buffer).len as int)),
                scratch,
                0,
                old(buffer).len as int,
            )
        }),
{
    let ghost b0 = *buffer;
    find_syllables_khmer(buffer);
    let ghost b1 = *buffer;
    buffer.unsafe_to_break_syllables();
    proof {
        assert(b1.len == b0.len);
        assert((buffer.info@, buffer.scratch_flags) == syllables_flagged(b1.info@, b1.scratch_flags, 0, b1.len as int));
    }
}

} // verus!
