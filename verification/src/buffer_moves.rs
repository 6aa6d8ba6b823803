//! Moving records within a buffer: the rotations that reordering passes
//! make after merging the clusters of the records they move.
use vstd::prelude::*;
use crate::buffer::{hb_buffer_t, is_merged};
use crate::glyph::hb_glyph_info_t;

verus! {

/// `s` with `s[i]` moved to `j` and `s[j..i]` shifted up by one.
pub open spec fn rotated_right<T>(s: Seq<T>, j: int, i: int) -> Seq<T> {
    Seq::new(s.len(), |k: int| if k == j { s[i] } else if j < k <= i { s[k - 1] } else { s[k] })
}

/// `s` with `s[a]` moved to `b` and `s[a + 1..=b]` shifted down by one.
pub open spec fn rotated_left<T>(s: Seq<T>, a: int, b: int) -> Seq<T> {
    Seq::new(s.len(), |k: int| if a <= k < b { s[k + 1] } else if k == b { s[a] } else { s[k] })
}

/// `s` with the block `s[i..j]` moved to `a` and `s[a..i]` shifted up after
/// it.
pub open spec fn block_moved<T>(s: Seq<T>, a: int, i: int, j: int) -> Seq<T> {
    Seq::new(
        s.len(),
        |k: int|
            if a <= k < a + (j - i) {
                s[i + (k - a)]
            } else if a + (j - i) <= k < j {
                s[k - (j - i)]
            } else {
                s[k]
            },
    )
}

/// `b1` is `b0` with the clusters of `s..e` merged (nothing to merge below
/// two records).
pub open spec fn merged_or_same(b0: hb_buffer_t, b1: hb_buffer_t, s: int, e: int) -> bool {
    if e - s < 2 {
        &&& b1.info@ == b0.info@
        &&& b1.out_sep@ == b0.out_sep@
        &&& b1.same_but_info(&b0)
        &&& b1.scratch_flags == b0.scratch_flags
    } else {
        is_merged(b0, b1, s, e)
    }
}

/// `b1` is `b0` with records `infos` in place of its own.
pub open spec fn with_records(b0: hb_buffer_t, b1: hb_buffer_t, infos: Seq<hb_glyph_info_t>) -> bool {
    &&& b1.info@ == infos
    &&& b1.out_sep@ == b0.out_sep@
    &&& b1.same_but_info(&b0)
    &&& b1.scratch_flags == b0.scratch_flags
}

/// Merges the clusters of `s..e`.
pub fn merge_range(buffer: &mut hb_buffer_t, s: usize, e: usize)
    requires
        old(buffer).wf(),
        s <= e <= old(buffer).len,
    ensures
        final(buffer).wf(),
        merged_or_same(*old(buffer), *final(buffer), s as int, e as int),
        final(buffer).info@.len() == old(buffer).info@.len(),
{
    buffer.merge_clusters(s, e);
    proof {
        if e - s >= 2 {
            assert(buffer.info@.len() == old(buffer).info@.len());
        }
    }
}

/// Moves record `i` to `j`, shifting the records between up by one.
pub fn rotate_right_records(buffer: &mut hb_buffer_t, j: usize, i: usize)
    requires
        old(buffer).wf(),
        j <= i < old(buffer).info@.len(),
    ensures
        final(buffer).wf(),
        with_records(*old(buffer), *final(buffer), rotated_right(old(buffer).info@, j as int, i as int)),
{
    let ghost s = buffer.info@;
    let t = buffer.info[i];
    let mut k = i;
    while k > j
        invariant
            j <= k <= i < s.len(),
            buffer.info@.len() == s.len(),
            buffer.wf(),
            buffer.same_but_info(old(buffer)),
            buffer.out_sep@ == old(buffer).out_sep@,
            buffer.scratch_flags == old(buffer).scratch_flags,
            s == old(buffer).info@,
            t == s[i as int],
            forall|x: int|
                0 <= x < s.len() ==> #[trigger] buffer.info@[x] == (if k < x <= i {
                    s[x - 1]
                } else {
                    s[x]
                }),
        decreases k - j,
    {
        let v = buffer.info[k - 1];
        buffer.info.set(k, v);
        k = k - 1;
    }
    buffer.info.set(j, t);
    assert(buffer.info@ =~= rotated_right(s, j as int, i as int));
}

/// Moves record `a` to `b`, shifting the records between down by one.
pub fn rotate_left_records(buffer: &mut hb_buffer_t, a: usize, b: usize)
    requires
        old(buffer).wf(),
        a <= b < old(buffer).info@.len(),
    ensures
        final(buffer).wf(),
        with_records(*old(buffer), *final(buffer), rotated_left(old(buffer).info@, a as int, b as int)),
{
    let ghost s = buffer.info@;
    let t = buffer.info[a];
    let mut k = a;
    while k < b
        invariant
            a <= k <= b < s.len(),
            buffer.info@.len() == s.len(),
            buffer.wf(),
            buffer.same_but_info(old(buffer)),
            buffer.out_sep@ == old(buffer).out_sep@,
            buffer.scratch_flags == old(buffer).scratch_flags,
            s == old(buffer).info@,
            t == s[a as int],
            forall|x: int|
                0 <= x < s.len() ==> #[trigger] buffer.info@[x] == (if a <= x < k {
                    s[x + 1]
                } else {
                    s[x]
                }),
        decreases b - k,
    {
        let v = buffer.info[k + 1];
        buffer.info.set(k, v);
        k = k + 1;
    }
    buffer.info.set(b, t);
    assert(buffer.info@ =~= rotated_left(s, a as int, b as int));
}

/// Moves the block of records `i..j` to `a`, shifting the records of `a..i`
/// up after it.
pub fn move_block_records(buffer: &mut hb_buffer_t, a: usize, i: usize, j: usize)
    requires
        old(buffer).wf(),
        a <= i <= j <= old(buffer).info@.len(),
    ensures
        final(buffer).wf(),
        with_records(*old(buffer), *final(buffer), block_moved(old(buffer).info@, a as int, i as int, j as int)),
{
    let ghost s = buffer.info@;
    let mut temp: Vec<hb_glyph_info_t> = Vec::new();
    let mut k = i;
    while k < j
        invariant
            i <= k <= j <= s.len(),
            buffer.info@ == s,
            temp@ == s.subrange(i as int, k as int),
        decreases j - k,
    {
        temp.push(buffer.info[k]);
        k = k + 1;
    }
    let d = j - i;
    // Shift a..i up by d, from the top down.
    let mut m = i;
    while m > a
        invariant
            a <= m <= i <= j <= s.len(),
            d == j - i,
            buffer.info@.len() == s.len(),
            buffer.wf(),
            buffer.same_but_info(old(buffer)),
            buffer.out_sep@ == old(buffer).out_sep@,
            buffer.scratch_flags == old(buffer).scratch_flags,
            s == old(buffer).info@,
            forall|x: int|
                0 <= x < s.len() ==> #[trigger] buffer.info@[x] == (if m + d <= x < j {
                    s[x - d]
                } else {
                    s[x]
                }),
        decreases m - a,
    {
        let v = buffer.info[m - 1];
        buffer.info.set(m - 1 + d, v);
        m = m - 1;
    }
    let mut q: usize = 0;
    while q < d
        invariant
            a + d <= j <= s.len(),
            d == j - i,
            q <= d,
            temp@ == s.subrange(i as int, j as int),
            buffer.info@.len() == s.len(),
            buffer.wf(),
            buffer.same_but_info(old(buffer)),
            buffer.out_sep@ == old(buffer).out_sep@,
            buffer.scratch_flags == old(buffer).scratch_flags,
            s == old(buffer).info@,
            forall|x: int|
                0 <= x < s.len() ==> #[trigger] buffer.info@[x] == (if a <= x < a + q {
                    s[i + (x - a)]
                } else if a + d <= x < j {
                    s[x - d]
                } else {
                    s[x]
                }),
        decreases d - q,
    {
        buffer.info.set(a + q, temp[q]);
        q = q + 1;
    }
    assert(buffer.info@ =~= block_moved(s, a as int, i as int, j as int));
}

/// `b1` is `b0` after the clusters of `j..=k` merge and record `k` moves
/// back to `j`.
pub open spec fn moved_back(b0: hb_buffer_t, b1: hb_buffer_t, j: int, k: int) -> bool {
    exists|m: hb_buffer_t|
        merged_or_same(b0, m, j, k + 1) && #[trigger] with_records(m, b1, rotated_right(m.info@, j, k))
}

/// `info` with `m` added to its mask.
pub open spec fn with_mask_or(info: hb_glyph_info_t, m: u32) -> hb_glyph_info_t {
    hb_glyph_info_t { mask: info.mask | m, ..info }
}

/// `s` with `m` added to the masks of `s[a..b]`.
pub open spec fn masks_or(s: Seq<hb_glyph_info_t>, a: int, b: int, m: u32) -> Seq<hb_glyph_info_t> {
    Seq::new(s.len(), |k: int| if a <= k < b { with_mask_or(s[k], m) } else { s[k] })
}

/// Adds `m` to the masks of records `a..b`.
pub fn add_masks(buffer: &mut hb_buffer_t, a: usize, b: usize, m: u32)
    requires
        old(buffer).wf(),
        a <= b <= old(buffer).info@.len(),
    ensures
        final(buffer).wf(),
        with_records(*old(buffer), *final(buffer), masks_or(old(buffer).info@, a as int, b as int, m)),
{
    let ghost s = buffer.info@;
    let mut k = a;
    while k < b
        invariant
            a <= k <= b <= s.len(),
            buffer.info@.len() == s.len(),
            buffer.wf(),
            buffer.same_but_info(old(buffer)),
            buffer.out_sep@ == old(buffer).out_sep@,
            buffer.scratch_flags == old(buffer).scratch_flags,
            s == old(buffer).info@,
            forall|x: int|
                0 <= x < s.len() ==> #[trigger] buffer.info@[x] == (if a <= x < k { with_mask_or(s[x], m) } else { s[x] }),
        decreases b - k,
    {
        let mut g = buffer.info[k];
        g.mask = g.mask | m;
        buffer.info.set(k, g);
        k = k + 1;
    }
    assert(buffer.info@ =~= masks_or(s, a as int, b as int, m));
}

} // verus!
