//! Dotted circles for broken syllables: a syllable that the syllable
//! machine could not make sense of gets a dotted circle (U+25CC) as its
//! base, so that its marks have something to attach to.

use vstd::prelude::*;
use crate::buffer::{hb_buffer_t, BUFFER_FLAG_DO_NOT_INSERT_DOTTED_CIRCLE};
use crate::glyph::{hb_glyph_info_t, byte2};

verus! {

/// The dotted circle inserted before `first`, the first record of a broken
/// syllable: `dc` (the circle's glyph and shaper bytes) with the cluster,
/// the mask and the syllable of `first`.
pub open spec fn dotted_before(dc: hb_glyph_info_t, first: hb_glyph_info_t) -> hb_glyph_info_t {
    hb_glyph_info_t {
        mask: first.mask,
        cluster: first.cluster,
        var1: (first.spec_syllable() as u32) << 24u32,
        ..dc
    }
}

/// The end of the run of rephas (records of shaper category `repha`, if
/// there is one) of syllable `syl` from record `i` on.
pub open spec fn repha_end(s: Seq<hb_glyph_info_t>, n: int, i: int, syl: u8, repha: Option<u8>) -> int
    decreases n - i,
{
    if 0 <= i < n && s[i].spec_syllable() == syl && (repha matches Some(r) && byte2(s[i].var2) == r) {
        repha_end(s, n, i + 1, syl, repha)
    } else {
        i
    }
}

pub proof fn lemma_repha_end(s: Seq<hb_glyph_info_t>, n: int, i: int, syl: u8, repha: Option<u8>)
    requires
        0 <= i <= n,
    ensures
        i <= repha_end(s, n, i, syl, repha) <= n,
    decreases n - i,
{
    if 0 <= i < n && s[i].spec_syllable() == syl && (repha matches Some(r) && byte2(s[i].var2) == r) {
        lemma_repha_end(s, n, i + 1, syl, repha);
    }
}

/// Whether a dotted circle goes before record `i`: it starts a broken
/// syllable (kind `broken`) other than the last one that got a circle.
pub open spec fn starts_broken(s: Seq<hb_glyph_info_t>, i: int, last: u8, broken: u8) -> bool {
    last != s[i].spec_syllable() && s[i].spec_syllable() & 0x0F == broken
}

/// The records from `i` on (of `n`) with the dotted circles inserted:
/// before the first record of each broken syllable, after its rephas.
/// `last` is the syllable that got the last circle.
pub open spec fn circled(
    s: Seq<hb_glyph_info_t>,
    n: int,
    i: int,
    last: u8,
    broken: u8,
    repha: Option<u8>,
    dc: hb_glyph_info_t,
) -> Seq<hb_glyph_info_t>
    decreases n - i, (if 0 <= i < n && last != s[i].spec_syllable() { 1int } else { 0int }),
{
    if i < 0 || i >= n {
        seq![]
    } else if starts_broken(s, i, last, broken) {
        let syl = s[i].spec_syllable();
        let r = repha_end(s, n, i, syl, repha);
        proof {
            lemma_repha_end(s, n, i, syl, repha);
        }
        s.subrange(i, r) + seq![dotted_before(dc, s[i])] + circled(s, n, r, syl, broken, repha, dc)
    } else {
        seq![s[i]] + circled(s, n, i + 1, last, broken, repha, dc)
    }
}

/// The number of dotted circles that `circled` inserts.
pub open spec fn circle_count(s: Seq<hb_glyph_info_t>, n: int, i: int, last: u8, broken: u8, repha: Option<u8>) -> nat
    decreases n - i, (if 0 <= i < n && last != s[i].spec_syllable() { 1int } else { 0int }),
{
    if i < 0 || i >= n {
        0
    } else if starts_broken(s, i, last, broken) {
        let syl = s[i].spec_syllable();
        let r = repha_end(s, n, i, syl, repha);
        proof {
            lemma_repha_end(s, n, i, syl, repha);
        }
        1 + circle_count(s, n, r, syl, broken, repha)
    } else {
        circle_count(s, n, i + 1, last, broken, repha)
    }
}

/// The circle template: glyph `glyph`, shaper category `category` and, if
/// given, shaper position `position`.
pub open spec fn circle_template(glyph: u32, category: u8, position: Option<u8>) -> hb_glyph_info_t {
    hb_glyph_info_t {
        glyph_id: glyph,
        mask: 0,
        cluster: 0,
        var1: 0,
        var2: ((category as u32) << 16u32) | (match position {
            Some(p) => (p as u32) << 24u32,
            None => 0u32,
        }),
    }
}

/// Whether some record of the first `n` is of a broken syllable.
pub open spec fn has_broken(s: Seq<hb_glyph_info_t>, n: int, broken: u8) -> bool {
    exists|k: int| 0 <= k < n && #[trigger] s[k].spec_syllable() & 0x0F == broken
}

/// `b1` is what inserting dotted circles (see `insert_dotted_circles`)
/// makes of `b0`: `b0` itself where the flags forbid it, no syllable is
/// broken or the font has no dotted circle; for a buffer that has already
/// failed, the pass runs and is dropped, leaving the input as it was; else
/// a buffer whose input is `b0`'s with the circles in place (see
/// `circled`), ready for the next pass.
pub open spec fn circles_inserted(
    b0: hb_buffer_t,
    b1: hb_buffer_t,
    dottedcircle_glyph: Option<u32>,
    broken_syllable_type: u8,
    dottedcircle_category: u8,
    repha_category: Option<u8>,
    dottedcircle_position: Option<u8>,
) -> bool {
    if b0.flags & BUFFER_FLAG_DO_NOT_INSERT_DOTTED_CIRCLE != 0
        || !has_broken(b0.info@, b0.len as int, broken_syllable_type)
        || dottedcircle_glyph is None {
        b1 == b0
    } else if !b0.successful {
        &&& b1.input() == b0.input()
        &&& !b1.successful
        &&& !b1.have_output
        &&& b1.idx == 0
        &&& b1.flags == b0.flags
        &&& b1.cluster_level == b0.cluster_level
        &&& b1.max_len == b0.max_len
    } else {
        &&& b1.input() == circled(
            b0.info@,
            b0.len as int,
            0,
            0,
            broken_syllable_type,
            repha_category,
            circle_template(dottedcircle_glyph->0, dottedcircle_category, dottedcircle_position),
        )
        &&& b1.successful
        &&& !b1.have_output
        &&& b1.idx == 0
        &&& b1.flags == b0.flags
        &&& b1.cluster_level == b0.cluster_level
        &&& b1.max_len == b0.max_len
    }
}

/// Inserts a dotted circle into every broken syllable (of kind
/// `broken_syllable_type`), after its rephas (records of shaper category
/// `repha_category`), unless the buffer's flags forbid it, there is no
/// broken syllable, or the font has no glyph for U+25CC
/// (`dottedcircle_glyph`). The circle gets shaper category
/// `dottedcircle_category` and, if given, shaper position
/// `dottedcircle_position`.
pub fn insert_dotted_circles(
    dottedcircle_glyph: Option<u32>,
    buffer: &mut hb_buffer_t,
    broken_syllable_type: u8,
    dottedcircle_category: u8,
    repha_category: Option<u8>,
    dottedcircle_position: Option<u8>,
)
    requires
        old(buffer).wf(),
        old(buffer).len + circle_count(old(buffer).info@, old(buffer).len as int, 0, 0, broken_syllable_type, repha_category)
            <= old(buffer).max_len,
    ensures
        final(buffer).wf(),
        circles_inserted(
            *old(buffer),
            *final(buffer),
            dottedcircle_glyph,
            broken_syllable_type,
            dottedcircle_category,
            repha_category,
            dottedcircle_position,
        ),
{
    if buffer.flags & BUFFER_FLAG_DO_NOT_INSERT_DOTTED_CIRCLE != 0 {
        return;
    }
    let ghost s = buffer.info@;
    let n = buffer.len;
    let mut k: usize = 0;
    while k < n && buffer.info[k].syllable() & 0x0F != broken_syllable_type
        invariant
            k <= n == buffer.len <= s.len(),
            s == buffer.info@,
            forall|x: int| 0 <= x < k ==> #[trigger] s[x].spec_syllable() & 0x0F != broken_syllable_type,
        decreases n - k,
    {
        k = k + 1;
    }
    if k == n {
        return;
    }
    assert(has_broken(s, n as int, broken_syllable_type)) by {
        assert(s[k as int].spec_syllable() & 0x0F == broken_syllable_type);
    }
    let glyph = match dottedcircle_glyph {
        Some(g) => g,
        None => {
            return;
        },
    };
    let aux: u32 = match dottedcircle_position {
        Some(p) => (p as u32) << 24u32,
        None => 0,
    };
    let v2: u32 = ((dottedcircle_category as u32) << 16u32) | aux;
    let ghost dc = circle_template(glyph, dottedcircle_category, dottedcircle_position);
    let ghost total = circled(s, n as int, 0, 0, broken_syllable_type, repha_category, dc);
    let ghost count0 = circle_count(s, n as int, 0, 0, broken_syllable_type, repha_category);
    buffer.clear_output();
    let mut last: u8 = 0;
    while buffer.idx < buffer.len
        invariant
            buffer.wf(),
            buffer.have_output,
            buffer.successful == old(buffer).successful,
            buffer.len == n,
            buffer.input() == s.subrange(0, n as int),
            !buffer.have_separate_output ==> buffer.out_len == buffer.idx,
            buffer.max_len == old(buffer).max_len,
            buffer.flags == old(buffer).flags,
            buffer.cluster_level == old(buffer).cluster_level,
            n <= s.len(),
            n + count0 <= buffer.max_len,
            dc == circle_template(glyph, dottedcircle_category, dottedcircle_position),
            v2 == dc.var2,
            buffer.pending() == s.subrange(buffer.idx as int, n as int),
            buffer.output() + circled(s, n as int, buffer.idx as int, last, broken_syllable_type, repha_category, dc) == total,
            buffer.out_len + (n - buffer.idx) + circle_count(s, n as int, buffer.idx as int, last, broken_syllable_type, repha_category)
                == n + count0,
        decreases n - buffer.idx, (if buffer.idx < n && last != s[buffer.idx as int].spec_syllable() { 1int } else { 0int }),
    {
        let i = buffer.idx;
        let cur = buffer.info[i];
        assert(cur == s[i as int]) by {
            assert(buffer.pending()[0] == s[i as int]);
        }
        let syllable = cur.syllable();
        if last != syllable && (syllable & 0x0F) == broken_syllable_type {
            let ghost old_last = last;
            last = syllable;
            let ginfo = hb_glyph_info_t {
                glyph_id: glyph,
                mask: cur.mask,
                cluster: cur.cluster,
                var1: (syllable as u32) << 24u32,
                var2: v2,
            };
            assert(ginfo == dotted_before(dc, s[i as int]));
            let ghost r = repha_end(s, n as int, i as int, syllable, repha_category);
            proof {
                lemma_repha_end(s, n as int, i as int, syllable, repha_category);
            }
            let ghost out0 = buffer.output();
            match repha_category {
                Some(rc) => {
                    while buffer.idx < buffer.len && last == buffer.info[buffer.idx].syllable()
                        && buffer.info[buffer.idx].shaper_byte() == rc
                        invariant
                            buffer.wf(),
                            buffer.have_output,
                            buffer.successful == old(buffer).successful,
                            buffer.len == n,
                            buffer.input() == s.subrange(0, n as int),
                            !buffer.have_separate_output ==> buffer.out_len == buffer.idx,
                            buffer.max_len == old(buffer).max_len,
                            buffer.flags == old(buffer).flags,
                            buffer.cluster_level == old(buffer).cluster_level,
                            n <= s.len(),
                            n + count0 <= buffer.max_len,
                            i <= buffer.idx <= r <= n,
                            last == syllable,
                            repha_category == Some(rc),
                            repha_end(s, n as int, buffer.idx as int, syllable, repha_category) == r,
                            buffer.pending() == s.subrange(buffer.idx as int, n as int),
                            buffer.output() == out0 + s.subrange(i as int, buffer.idx as int),
                            buffer.out_len == out0.len() + (buffer.idx - i),
                            out0.len() + (n - i) + circle_count(s, n as int, i as int, old_last, broken_syllable_type, repha_category)
                                == n + count0,
                        decreases n - buffer.idx,
                    {
                        proof {
                            assert(buffer.pending()[0] == s[buffer.idx as int]);
                            lemma_repha_end(s, n as int, buffer.idx + 1, syllable, repha_category);
                        }
                        buffer.next_glyph();
                        proof {
                            assert(buffer.output() =~= out0 + s.subrange(i as int, buffer.idx as int));
                        }
                    }
                },
                None => {},
            }
            assert(buffer.idx == r) by {
                if buffer.idx < n {
                    assert(buffer.pending()[0] == s[buffer.idx as int]);
                }
            }
            buffer.output_info(ginfo);
            proof {
                assert(circled(s, n as int, i as int, old_last, broken_syllable_type, repha_category, dc)
                    == s.subrange(i as int, r) + seq![ginfo] + circled(s, n as int, r, syllable, broken_syllable_type, repha_category, dc));
                assert(buffer.output() =~= out0 + s.subrange(i as int, r) + seq![ginfo]);
            }
        } else {
            let ghost before = *buffer;
            buffer.next_glyph();
            proof {
                assert(buffer.out_len == before.out_len + 1) by {
                    assert(buffer.output().len() == before.output().len() + 1);
                }
                assert(buffer.idx == before.idx + 1);
                assert(circled(s, n as int, i as int, last, broken_syllable_type, repha_category, dc)
                    == seq![s[i as int]] + circled(s, n as int, i + 1, last, broken_syllable_type, repha_category, dc));
            }
        }
    }
    proof {
        assert(buffer.pending() =~= Seq::<hb_glyph_info_t>::empty());
        assert(buffer.output() + Seq::<hb_glyph_info_t>::empty() =~= buffer.output());
    }
    buffer.sync();
}

/// Inserting dotted circles adds one record per circle: the records with
/// their circles are as many as the records and `circle_count` together.
pub proof fn lemma_circled_len(
    s: Seq<hb_glyph_info_t>,
    n: int,
    i: int,
    last: u8,
    broken: u8,
    repha: Option<u8>,
    dc: hb_glyph_info_t,
)
    requires
        0 <= i <= n <= s.len(),
    ensures
        circled(s, n, i, last, broken, repha, dc).len() == (n - i) + circle_count(s, n, i, last, broken, repha),
    decreases n - i, (if 0 <= i < n && last != s[i].spec_syllable() { 1int } else { 0int }),
{
    if i < n {
        if starts_broken(s, i, last, broken) {
            let syl = s[i].spec_syllable();
            let r = repha_end(s, n, i, syl, repha);
            lemma_repha_end(s, n, i, syl, repha);
            lemma_circled_len(s, n, r, syl, broken, repha, dc);
        } else {
            lemma_circled_len(s, n, i + 1, last, broken, repha, dc);
        }
    }
}

} // verus!
