//! Pieces of Unicode normalization that work on the glyph records alone.

use vstd::prelude::*;
use crate::glyph::hb_glyph_info_t;
use crate::buffer::{hb_buffer_t, insertion_point, is_merged, lemma_sorted_from_done, lemma_sorted_from_step, merged_info, sorted_from};
use crate::buffer_moves::{rotated_right, with_records};

verus! {

/// Whether a record with combining class `pa` sorts after one with
/// combining class `pb`: marks sort by ascending modified combining class.
pub fn compare_combining_class(pa: &hb_glyph_info_t, pb: &hb_glyph_info_t) -> (r: bool)
    ensures
        r == (pa.modified_combining_class() > pb.modified_combining_class()),
{
    let a = pa.modified_combining_class();
    let b = pb.modified_combining_class();
    a > b
}

/// Records `a..b` of `s` come in ascending modified combining class.
pub open spec fn combining_classes_ascend(s: Seq<hb_glyph_info_t>, a: int, b: int) -> bool {
    forall|p: int, q: int|
        a <= p <= q < b ==> #[trigger] s[p].modified_combining_class() <= #[trigger] s[q].modified_combining_class()
}

/// Merging clusters leaves every record's character properties as they were.
proof fn lemma_merge_keeps_properties(b: hb_buffer_t, start: int, end: int)
    ensures
        merged_info(b, start, end).len() == b.info@.len(),
        forall|k: int|
            0 <= k < b.info@.len() ==> (#[trigger] merged_info(b, start, end)[k]).var2 == b.info@[k].var2,
{
}

proof fn lemma_sorted_from_ascends(b: hb_buffer_t, bf: hb_buffer_t, start: int, end: int, i: int)
    requires
        0 <= start < i,
        end <= b.info@.len(),
        sorted_from(compare_combining_class, b, bf, start, end, i),
        combining_classes_ascend(b.info@, start, if i < end { i } else { end }),
    ensures
        combining_classes_ascend(bf.info@, start, end),
    decreases end - i,
{
    let s = b.info@;
    if i < end {
        let j = lemma_sorted_from_step(compare_combining_class, b, bf, start, end, i);
        if j > start {
            assert(compare_combining_class.ensures((&s[j - 1], &s[i]), false));
        }
        if j == i {
            assert(combining_classes_ascend(s, start, i + 1));
            lemma_sorted_from_ascends(b, bf, start, end, i + 1);
        } else {
            let (m, b2) = choose|m: hb_buffer_t, b2: hb_buffer_t|
                #[trigger] is_merged(b, m, j, i + 1) && #[trigger] with_records(m, b2, rotated_right(m.info@, j, i))
                    && sorted_from(compare_combining_class, b2, bf, start, end, i + 1);
            lemma_merge_keeps_properties(b, j, i + 1);
            let t = b2.info@;
            assert forall|k: int| start <= k < i + 1 implies #[trigger] t[k].modified_combining_class() == (
            if k == j {
                s[i]
            } else if j < k {
                s[k - 1]
            } else {
                s[k]
            }).modified_combining_class() by {
                if k == j {
                    assert(m.info@[i].var2 == s[i].var2);
                } else if j < k {
                    assert(m.info@[k - 1].var2 == s[k - 1].var2);
                } else {
                    assert(m.info@[k].var2 == s[k].var2);
                }
            }
            assert forall|m2: int| j < m2 <= i implies (#[trigger] s[m2 - 1]).modified_combining_class() > s[i].modified_combining_class() by {
                assert(compare_combining_class.ensures((&s[m2 - 1], &s[i]), true));
            }
            assert forall|p: int, q: int|
                start <= p <= q < i + 1 implies #[trigger] t[p].modified_combining_class() <= #[trigger] t[q].modified_combining_class() by {
                assert(t[p].modified_combining_class() == (if p == j { s[i] } else if j < p { s[p - 1] } else { s[p] }).modified_combining_class());
                assert(t[q].modified_combining_class() == (if q == j { s[i] } else if j < q { s[q - 1] } else { s[q] }).modified_combining_class());
                if p < j && q >= j {
                    assert(s[p].modified_combining_class() <= s[j - 1].modified_combining_class());
                }
                if p == j && q > j {
                    assert(s[j].modified_combining_class() <= s[q - 1].modified_combining_class());
                }
            }
            lemma_sorted_from_ascends(b2, bf, start, end, i + 1);
        }
    } else {
        lemma_sorted_from_done(compare_combining_class, b, bf, start, end, i);
    }
}

/// Sorting records with `compare_combining_class` leaves them in ascending
/// modified combining class.
pub proof fn lemma_sort_by_combining_class(b: hb_buffer_t, bf: hb_buffer_t, start: int, end: int)
    requires
        0 <= start <= end <= b.info@.len(),
        sorted_from(compare_combining_class, b, bf, start, end, start + 1),
    ensures
        combining_classes_ascend(bf.info@, start, end),
{
    lemma_sorted_from_ascends(b, bf, start, end, start + 1);
}

} // verus!
