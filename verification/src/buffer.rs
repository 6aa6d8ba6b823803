//! The shaping buffer: the glyph records being shaped, their positions, and
//! the output side that substitutions write to while they walk the input.
//!
//! While a pass produces output (`have_output`), the records before the
//! cursor `idx` have been consumed and the records written so far make up
//! the output, `out_len` long. As long as the output is no longer than the
//! consumed input it is written in place, over the consumed records; once
//! it grows past the cursor it moves to a separate vector
//! (`have_separate_output`). `sync` makes the output the new input.

use vstd::prelude::*;
use vstd::std_specs::iter::IteratorSpec;
use crate::glyph::{
    hb_glyph_info_t, GlyphPosition, GLYPH_FLAG_DEFINED, UNSAFE_TO_BREAK, UNSAFE_TO_CONCAT,
    SCRATCH_HAS_GLYPH_FLAGS, zero_info, zero_pos,
};
use crate::common::{Direction, Script, Language};

verus! {

/// Length of the text kept before and after the buffer's contents.
pub const CONTEXT_LENGTH: usize = 5;

/// Cluster level: clusters merge to keep them monotone, by graphemes.
pub const HB_BUFFER_CLUSTER_LEVEL_MONOTONE_GRAPHEMES: u32 = 0;
/// Cluster level: clusters merge to keep them monotone, by characters.
pub const HB_BUFFER_CLUSTER_LEVEL_MONOTONE_CHARACTERS: u32 = 1;
/// Cluster level: clusters never merge; glyph flags mark where they would.
pub const HB_BUFFER_CLUSTER_LEVEL_CHARACTERS: u32 = 2;
/// The default cluster level.
pub const HB_BUFFER_CLUSTER_LEVEL_DEFAULT: u32 = 0;

/// Buffer flag: the buffer holds the beginning of the text.
pub const BUFFER_FLAG_BEGINNING_OF_TEXT: u32 = 0x00000001;
/// Buffer flag: the buffer holds the end of the text.
pub const BUFFER_FLAG_END_OF_TEXT: u32 = 0x00000002;
/// Buffer flag: keep default-ignorable characters visible.
pub const BUFFER_FLAG_PRESERVE_DEFAULT_IGNORABLES: u32 = 0x00000004;
/// Buffer flag: remove default-ignorable characters from the output.
pub const BUFFER_FLAG_REMOVE_DEFAULT_IGNORABLES: u32 = 0x00000008;
/// Buffer flag: do not insert dotted circles into broken clusters.
pub const BUFFER_FLAG_DO_NOT_INSERT_DOTTED_CIRCLE: u32 = 0x00000010;
/// Buffer flag: mark glyphs where concatenating text is unsafe.
pub const BUFFER_FLAG_PRODUCE_UNSAFE_TO_CONCAT: u32 = 0x00000040;

/// The most records a buffer grows to by default.
pub const MAX_LEN_DEFAULT: usize = 0x3FFFFFFF;
/// The most operations a shaping pass performs by default.
pub const MAX_OPS_DEFAULT: i32 = 0x1FFFFFFF;
/// Per input record, how many records a shaping pass may grow to.
pub const MAX_LEN_FACTOR: usize = 64;
/// The least limit on records during a shaping pass.
pub const MAX_LEN_MIN: usize = 16384;
/// Per input record, how many operations a shaping pass may perform.
pub const MAX_OPS_FACTOR: i32 = 1024;
/// The least limit on operations during a shaping pass.
pub const MAX_OPS_MIN: i32 = 16384;

/// How clusters behave when records merge, split or move.
#[derive(Clone, Copy, PartialEq, Eq, Structural, Hash, Debug)]
pub enum BufferClusterLevel {
    /// Clusters stay monotone and whole graphemes merge.
    MonotoneGraphemes,
    /// Clusters stay monotone and characters merge.
    MonotoneCharacters,
    /// Clusters never merge.
    Characters,
}

/// The raw number of a cluster level.
pub open spec fn cluster_level_code(l: BufferClusterLevel) -> u32 {
    match l {
        BufferClusterLevel::MonotoneGraphemes => HB_BUFFER_CLUSTER_LEVEL_MONOTONE_GRAPHEMES,
        BufferClusterLevel::MonotoneCharacters => HB_BUFFER_CLUSTER_LEVEL_MONOTONE_CHARACTERS,
        BufferClusterLevel::Characters => HB_BUFFER_CLUSTER_LEVEL_CHARACTERS,
    }
}

impl BufferClusterLevel {
    /// The level with raw number `raw`; only the three raw levels exist.
    pub fn from_raw(raw: u32) -> (r: BufferClusterLevel)
        requires
            raw <= HB_BUFFER_CLUSTER_LEVEL_CHARACTERS,
        ensures
            cluster_level_code(r) == raw,
    {
        if raw == HB_BUFFER_CLUSTER_LEVEL_MONOTONE_GRAPHEMES {
            BufferClusterLevel::MonotoneGraphemes
        } else if raw == HB_BUFFER_CLUSTER_LEVEL_MONOTONE_CHARACTERS {
            BufferClusterLevel::MonotoneCharacters
        } else {
            BufferClusterLevel::Characters
        }
    }

    /// The raw number of this level.
    pub fn into_raw(self) -> (r: u32)
        ensures
            r == cluster_level_code(self),
    {
        match self {
            BufferClusterLevel::MonotoneGraphemes => HB_BUFFER_CLUSTER_LEVEL_MONOTONE_GRAPHEMES,
            BufferClusterLevel::MonotoneCharacters => HB_BUFFER_CLUSTER_LEVEL_MONOTONE_CHARACTERS,
            BufferClusterLevel::Characters => HB_BUFFER_CLUSTER_LEVEL_CHARACTERS,
        }
    }
}

impl Default for BufferClusterLevel {
    fn default() -> (r: BufferClusterLevel)
        ensures
            r == BufferClusterLevel::MonotoneGraphemes,
    {
        BufferClusterLevel::MonotoneGraphemes
    }
}

/// Raw cluster levels and levels correspond one to one: `into_raw` gives
/// a raw level that `from_raw` accepts, and `from_raw` gives back the level.
pub proof fn lemma_cluster_level_roundtrip(a: BufferClusterLevel, b: BufferClusterLevel)
    ensures
        cluster_level_code(a) <= HB_BUFFER_CLUSTER_LEVEL_CHARACTERS,
        cluster_level_code(a) == cluster_level_code(b) ==> a == b,
{
}

/// Whether two neighbouring records belong to one cluster.
pub fn _cluster_group_func(a: &hb_glyph_info_t, b: &hb_glyph_info_t) -> (r: bool)
    ensures
        r == (a.cluster == b.cluster),
{
    a.cluster == b.cluster
}

broadcast use vstd::string::axiom_spec_iter, vstd::string::next_postcondition;

/// The number of bytes that UTF-8 takes for `c`.
pub open spec fn utf8_len(c: char) -> int {
    if (c as u32) < 0x80 {
        1
    } else if (c as u32) < 0x800 {
        2
    } else if (c as u32) < 0x10000 {
        3
    } else {
        4
    }
}

/// The byte offset in UTF-8 of character `k` of `s`.
pub open spec fn byte_offset(s: Seq<char>, k: int) -> int
    decreases k,
{
    if k <= 0 {
        0
    } else {
        byte_offset(s, k - 1) + utf8_len(s[k - 1])
    }
}

/// The record that adding character `k` of `s` makes: the character, and
/// its byte offset (modulo 2^32) as its cluster.
pub open spec fn text_record(s: Seq<char>, k: int) -> hb_glyph_info_t {
    hb_glyph_info_t {
        glyph_id: s[k] as u32,
        mask: 0,
        cluster: (byte_offset(s, k) % 0x1_0000_0000) as u32,
        var1: 0,
        var2: 0,
    }
}

/// The characters of a text, in order.
fn text_chars(text: &str) -> (r: Vec<char>)
    ensures
        r@ == text@,
{
    let mut it = text.chars();
    let mut v: Vec<char> = Vec::new();
    loop
        invariant
            v@ + it.remaining() == text@,
            it.decrease() is Some,
        decreases it.decrease()->0,
    {
        let ghost before = it;
        match it.next() {
            Some(c) => {
                assert(v@.push(c) + it.remaining() =~= text@) by {
                    assert(before.remaining() == seq![c] + it.remaining());
                }
                v.push(c);
            },
            None => {
                assert(v@ =~= text@);
                return v;
            },
        }
    }
}

/// The number of bytes that UTF-8 takes for `c`.
fn utf8_len_exec(c: char) -> (r: u32)
    ensures
        r == utf8_len(c),
{
    let u = c as u32;
    if u < 0x80 {
        1
    } else if u < 0x800 {
        2
    } else if u < 0x10000 {
        3
    } else {
        4
    }
}

/// The start of the run of equal clusters that `s[start]` ends.
pub open spec fn run_begin(s: Seq<hb_glyph_info_t>, start: int) -> int
    decreases start,
{
    if 0 < start < s.len() && s[start - 1].cluster == s[start].cluster {
        run_begin(s, start - 1)
    } else {
        start
    }
}

/// The end of the run of records with cluster `c` from `i` on, before
/// `limit`.
pub open spec fn run_while(s: Seq<hb_glyph_info_t>, i: int, limit: int, c: u32) -> int
    decreases limit - i,
{
    if 0 <= i < limit && i < s.len() && s[i].cluster == c {
        run_while(s, i + 1, limit, c)
    } else {
        i
    }
}

/// Where merging the output clusters of `start..end` ends in the output:
/// past the records that share the cluster of the last one.
pub open spec fn out_merge_end(b: hb_buffer_t, end: int) -> int {
    run_end(b.out_seq(), end, b.out_len as int)
}

/// Where merging the output clusters of `start..end` ends in the input:
/// when the merge reaches the end of the output, the input records from
/// the cursor on that continue its last cluster merge too.
pub open spec fn out_merge_tail(b: hb_buffer_t, end: int) -> int {
    let en = out_merge_end(b, end);
    if en == b.out_len {
        run_while(b.info@, b.idx as int, b.len as int, b.out_seq()[en - 1].cluster)
    } else {
        b.idx as int
    }
}

/// `after` is `before` with the output clusters of `start..end` merged
/// (see `hb_buffer_t::merge_out_clusters`).
pub open spec fn is_out_merged(before: hb_buffer_t, after: hb_buffer_t, start: int, end: int) -> bool {
    let c = min_cluster(before.out_seq(), start, end, u32::MAX);
    let st = run_begin(before.out_seq(), start);
    let en = out_merge_end(before, end);
    let k = out_merge_tail(before, end);
    &&& before.have_separate_output ==> {
        &&& after.out_sep@ == clustered(before.out_sep@, st, en, c, 0)
        &&& after.info@ == clustered(before.info@, before.idx as int, k, c, 0)
    }
    &&& !before.have_separate_output ==> {
        &&& after.info@ == clustered(clustered(before.info@, st, en, c, 0), before.idx as int, k, c, 0)
        &&& after.out_sep@ == before.out_sep@
    }
    &&& after == (hb_buffer_t { info: after.info, out_sep: after.out_sep, ..before })
}

/// `b1` is `b0` with records `infos` and positions `poss`.
pub open spec fn with_info_pos(b0: hb_buffer_t, b1: hb_buffer_t, infos: Seq<hb_glyph_info_t>, poss: Seq<GlyphPosition>) -> bool {
    &&& b1.info@ == infos
    &&& b1.pos@ == poss
    &&& b1 == (hb_buffer_t { info: b1.info, pos: b1.pos, ..b0 })
}

/// `s` with the run of records that ends at `j - 1` (all of the cluster of
/// `s[j - 1]`) given cluster `c`, and the glyph flags of `mask` where the
/// cluster changes.
pub open spec fn back_merged(s: Seq<hb_glyph_info_t>, j: int, c: u32, mask: u32) -> Seq<hb_glyph_info_t> {
    let st = run_start_back(s, j, s[j - 1].cluster);
    Seq::new(s.len(), |k: int| if st <= k < j { with_cluster(s[k], c, mask) } else { s[k] })
}

/// `bf` is what deleting in place makes of `b` from record `i` on, with
/// `j` records kept so far, out of `n` records: a record that `filter`
/// deletes passes its cluster on (forward while its cluster goes on,
/// backward to the kept records when its cluster is smaller, or by merging
/// with the next record when nothing is kept yet); a kept record moves
/// down to place `j`.
pub open spec fn deleted_from<F: Fn(&hb_glyph_info_t) -> bool>(
    filter: F,
    n: int,
    b: hb_buffer_t,
    bf: hb_buffer_t,
    i: int,
    j: int,
) -> bool
    decreases n - i,
{
    if i >= n {
        &&& bf.info@ == b.info@
        &&& bf.pos@ == b.pos@
        &&& bf == (hb_buffer_t { len: j as usize, info: bf.info, pos: bf.pos, ..b })
    } else {
        let s = b.info@;
        let g = s[i];
        exists|r: bool|
            #[trigger] filter.ensures((&g,), r) && if r {
                if i + 1 < n && g.cluster == s[i + 1].cluster {
                    deleted_from(filter, n, b, bf, i + 1, j)
                } else if j != 0 {
                    if g.cluster < s[j - 1].cluster {
                        exists|b2: hb_buffer_t|
                            #[trigger] with_info_pos(b, b2, back_merged(s, j, g.cluster, g.mask), b.pos@)
                                && deleted_from(filter, n, b2, bf, i + 1, j)
                    } else {
                        deleted_from(filter, n, b, bf, i + 1, j)
                    }
                } else if i + 1 < n {
                    exists|m: hb_buffer_t| #[trigger] is_merged(b, m, i, i + 2) && deleted_from(filter, n, m, bf, i + 1, j)
                } else {
                    deleted_from(filter, n, b, bf, i + 1, j)
                }
            } else {
                exists|b2: hb_buffer_t|
                    #[trigger] with_info_pos(b, b2, s.update(j, s[i]), b.pos@.update(j, b.pos@[i]))
                        && deleted_from(filter, n, b2, bf, i + 1, j + 1)
            }
    }
}

/// Whether `j` is where insertion sorting with `goes_after` puts record `i` of
/// `s`: `goes_after` put every record of `s[j..i]` after it, and (above `start`)
/// not the one before them.
pub open spec fn insertion_point<F: Fn(&hb_glyph_info_t, &hb_glyph_info_t) -> bool>(
    goes_after: F,
    s: Seq<hb_glyph_info_t>,
    start: int,
    i: int,
    j: int,
) -> bool {
    &&& start <= j <= i
    &&& forall|m: int| j < m <= i ==> #[trigger] goes_after.ensures((&s[m - 1], &s[i]), true)
    &&& j > start ==> goes_after.ensures((&s[j - 1], &s[i]), false)
}

/// `bf` is what sorting records `start..end` by insertion with `goes_after` makes
/// of `b`, from record `i` on: record `i` moves back to its insertion point
/// (see `insertion_point`), after the clusters it crosses merge.
pub open spec fn sorted_from<F: Fn(&hb_glyph_info_t, &hb_glyph_info_t) -> bool>(
    goes_after: F,
    b: hb_buffer_t,
    bf: hb_buffer_t,
    start: int,
    end: int,
    i: int,
) -> bool
    decreases end - i,
{
    if i >= end {
        crate::buffer_moves::with_records(b, bf, b.info@)
    } else {
        exists|j: int|
            #[trigger] insertion_point(goes_after, b.info@, start, i, j) && if j == i {
                sorted_from(goes_after, b, bf, start, end, i + 1)
            } else {
                exists|m: hb_buffer_t|
                    #[trigger] is_merged(b, m, j, i + 1) && exists|b2: hb_buffer_t|
                        #[trigger] crate::buffer_moves::with_records(m, b2, crate::buffer_moves::rotated_right(m.info@, j, i))
                            && sorted_from(goes_after, b2, bf, start, end, i + 1)
            }
    }
}

/// Once every record has been placed, `sorted_from` leaves the records as
/// they are.
pub proof fn lemma_sorted_from_done<F: Fn(&hb_glyph_info_t, &hb_glyph_info_t) -> bool>(
    goes_after: F,
    b: hb_buffer_t,
    bf: hb_buffer_t,
    start: int,
    end: int,
    i: int,
)
    requires
        i >= end,
        sorted_from(goes_after, b, bf, start, end, i),
    ensures
        crate::buffer_moves::with_records(b, bf, b.info@),
{
}

/// One step of `sorted_from`: record `i` has an insertion point `j`, and the
/// rest follows from the buffer that moving it there makes.
pub proof fn lemma_sorted_from_step<F: Fn(&hb_glyph_info_t, &hb_glyph_info_t) -> bool>(
    goes_after: F,
    b: hb_buffer_t,
    bf: hb_buffer_t,
    start: int,
    end: int,
    i: int,
) -> (j: int)
    requires
        i < end,
        sorted_from(goes_after, b, bf, start, end, i),
    ensures
        insertion_point(goes_after, b.info@, start, i, j),
        j == i ==> sorted_from(goes_after, b, bf, start, end, i + 1),
        j != i ==> exists|m: hb_buffer_t, b2: hb_buffer_t|
            #[trigger] is_merged(b, m, j, i + 1) && #[trigger] crate::buffer_moves::with_records(
                m,
                b2,
                crate::buffer_moves::rotated_right(m.info@, j, i),
            ) && sorted_from(goes_after, b2, bf, start, end, i + 1),
{
    let j = choose|j: int|
        #[trigger] insertion_point(goes_after, b.info@, start, i, j) && if j == i {
            sorted_from(goes_after, b, bf, start, end, i + 1)
        } else {
            exists|m: hb_buffer_t|
                #[trigger] is_merged(b, m, j, i + 1) && exists|b2: hb_buffer_t|
                    #[trigger] crate::buffer_moves::with_records(m, b2, crate::buffer_moves::rotated_right(m.info@, j, i))
                        && sorted_from(goes_after, b2, bf, start, end, i + 1)
        };
    j
}

/// `after` is `before` with records `start..end` reversed (and their
/// positions too, once there are positions); nothing else changes.
pub open spec fn range_reversed(before: hb_buffer_t, after: hb_buffer_t, start: int, end: int) -> bool {
    &&& after.info@ == reversed_range(before.info@, start, end)
    &&& before.have_positions ==> after.pos@ == reversed_range(before.pos@, start, end)
    &&& !before.have_positions ==> after.pos@ == before.pos@
    &&& after == (hb_buffer_t { info: after.info, pos: after.pos, ..before })
}

/// `after` is `before` with the clusters of `start..end` merged when `merge`
/// is set and the range holds two records or more; else it is `before`.
pub open spec fn merged_if(merge: bool, before: hb_buffer_t, after: hb_buffer_t, start: int, end: int) -> bool {
    if merge && end - start >= 2 {
        is_merged(before, after, start, end)
    } else {
        after == before
    }
}

/// `after` is `before` with the group `start..end` closed: its clusters
/// merged if `merge` is set, then its records reversed.
pub open spec fn group_closed(merge: bool, before: hb_buffer_t, after: hb_buffer_t, start: int, end: int) -> bool {
    exists|m: hb_buffer_t|
        #[trigger] merged_if(merge, before, m, start, end) && range_reversed(m, after, start, end)
}

/// What `group` answers for records `i - 1` and `i` of `info`.
pub open spec fn group_answer<F: Fn(&hb_glyph_info_t, &hb_glyph_info_t) -> bool>(
    group: F,
    info: Seq<hb_glyph_info_t>,
    i: int,
    same: bool,
) -> bool {
    group.ensures((&info[i - 1], &info[i]), same)
}

/// `after` is what one step of `reverse_groups`, at record `i`, makes of
/// `before`, with the open group starting at `start` before the step and at
/// `next_start` after it. When records `i - 1` and `i` are not in one group
/// (by `same`), the open group `start..i` is closed and a new one starts at
/// `i`; then the open group up to `i` is closed again and the whole buffer
/// reversed.
pub open spec fn group_step(
    merge: bool,
    same: bool,
    before: hb_buffer_t,
    after: hb_buffer_t,
    start: int,
    next_start: int,
    i: int,
) -> bool {
    &&& next_start == (if same { start } else { i })
    &&& exists|x: hb_buffer_t, y: hb_buffer_t|
        #![trigger group_closed(merge, x, y, next_start, i)]
        (if same { x == before } else { group_closed(merge, before, x, start, i) })
            && group_closed(merge, x, y, next_start, i)
            && range_reversed(y, after, 0, y.len as int)
}

/// `bf` is what `reverse_groups` makes of `b` from record `i` on, with the
/// open group starting at `start`, for a buffer of `len` records.
pub open spec fn groups_reversed_from<F: Fn(&hb_glyph_info_t, &hb_glyph_info_t) -> bool>(
    group: F,
    merge: bool,
    b: hb_buffer_t,
    bf: hb_buffer_t,
    start: int,
    i: int,
    len: int,
) -> bool
    decreases len - i,
{
    if i >= len {
        bf == b
    } else {
        exists|same: bool, next: hb_buffer_t, next_start: int|
            #[trigger] group_answer(group, b.info@, i, same) && #[trigger] group_step(
                merge,
                same,
                b,
                next,
                start,
                next_start,
                i,
            ) && groups_reversed_from(group, merge, next, bf, next_start, i + 1, len)
    }
}

/// The end of the run of records with syllable byte `v` from `i` on,
/// before `len`.
pub open spec fn syllable_run(s: Seq<hb_glyph_info_t>, i: int, len: int, v: u8) -> int
    decreases len - i,
{
    if 0 <= i < len && i < s.len() && s[i].syllable() == v {
        syllable_run(s, i + 1, len, v)
    } else {
        i
    }
}

/// Where the syllable that starts at `start` ends: past the records after
/// it with its syllable byte (`start` itself past the first `len` records).
pub open spec fn syllable_end(s: Seq<hb_glyph_info_t>, start: int, len: int) -> int {
    if 0 <= start < len && start < s.len() {
        syllable_run(s, start + 1, len, s[start].syllable())
    } else {
        start
    }
}

/// A run of syllable bytes from `i` ends between `i` and `len`.
pub proof fn lemma_syllable_run_bounds(s: Seq<hb_glyph_info_t>, i: int, len: int, v: u8)
    requires
        0 <= i <= len,
    ensures
        i <= syllable_run(s, i, len, v) <= len,
    decreases len - i,
{
    if 0 <= i < len && i < s.len() && s[i].syllable() == v {
        lemma_syllable_run_bounds(s, i + 1, len, v);
    }
}

/// The records and scratch flags after each syllable of the first `len`
/// records, from `start` on, is marked unsafe to break (see
/// `unsafe_to_break`), one syllable after the other.
pub open spec fn syllables_flagged(s: Seq<hb_glyph_info_t>, scratch: u32, start: int, len: int) -> (
    Seq<hb_glyph_info_t>,
    u32,
)
    decreases len - start,
{
    if 0 <= start < len && len <= s.len() {
        let end = syllable_end(s, start, len);
        proof {
            lemma_syllable_run_bounds(s, start + 1, len, s[start].syllable());
        }
        if end - start < 2 {
            syllables_flagged(s, scratch, end, len)
        } else {
            syllables_flagged(
                flagged_interior(s, start, end, min_cluster(s, start, end, u32::MAX), UNSAFE_TO_BREAK | UNSAFE_TO_CONCAT),
                scratch | SCRATCH_HAS_GLYPH_FLAGS,
                end,
                len,
            )
        }
    } else {
        (s, scratch)
    }
}

/// `b1` is `b0` after `_set_glyph_flags(mask, start, end, interior,
/// from_out_buffer)`: the records of the range (with `from_out_buffer`, the
/// output from `start` and the input from the cursor to `end`) gain `mask`;
/// with `interior`, all but those of the range's smallest cluster.
pub open spec fn glyph_flags_set(
    b0: hb_buffer_t,
    b1: hb_buffer_t,
    mask: u32,
    start: Option<usize>,
    end: Option<usize>,
    interior: Option<bool>,
    from_out_buffer: Option<bool>,
) -> bool {
    let st = match start { Some(v) => v as int, None => 0 };
    let en0 = match end { Some(v) => v as int, None => b0.len as int };
    let en = if en0 < b0.len { en0 } else { b0.len as int };
    let interior = match interior { Some(v) => v, None => false };
    let from_out = match from_out_buffer { Some(v) => v, None => false };
    if interior && !from_out && en - st < 2 {
        b1 == b0
    } else {
        &&& b1.scratch_flags == b0.scratch_flags | SCRATCH_HAS_GLYPH_FLAGS
        &&& b1 == (hb_buffer_t { info: b1.info, out_sep: b1.out_sep,
            scratch_flags: b1.scratch_flags, ..b0 })
        &&& (!from_out || !b0.have_output) ==> {
            &&& b1.out_sep == b0.out_sep
            &&& !interior ==> b1.info@ == flagged(b0.info@, st, en, mask)
            &&& interior ==> b1.info@ == flagged_interior(b0.info@, st, en,
                min_cluster(b0.info@, st, en, u32::MAX), mask)
        }
        &&& (from_out && b0.have_output) ==> {
            let c = min_cluster(b0.out_seq(), st, b0.out_len as int,
                min_cluster(b0.info@, b0.idx as int, en, u32::MAX));
            let ol = b0.out_len as int;
            let x = b0.idx as int;
            if b0.have_separate_output {
                &&& !interior ==> b1.out_sep@ == flagged(b0.out_sep@, st, ol, mask)
                    && b1.info@ == flagged(b0.info@, x, en, mask)
                &&& interior ==> b1.out_sep@ == flagged_interior(b0.out_sep@, st, ol, c, mask)
                    && b1.info@ == flagged_interior(b0.info@, x, en, c, mask)
            } else {
                &&& b1.out_sep == b0.out_sep
                &&& !interior ==> b1.info@ == flagged(flagged(b0.info@, st, ol, mask), x, en, mask)
                &&& interior ==> b1.info@ == flagged_interior(flagged_interior(b0.info@, st, ol, c, mask), x, en, c, mask)
            }
        }
    }
}

/// A record with its cluster set to `cluster`; when the cluster changes,
/// the record's glyph flags are replaced by those of `mask`.
pub open spec fn with_cluster(info: hb_glyph_info_t, cluster: u32, mask: u32) -> hb_glyph_info_t {
    if info.cluster != cluster {
        hb_glyph_info_t {
            mask: (info.mask & !GLYPH_FLAG_DEFINED) | (mask & GLYPH_FLAG_DEFINED),
            cluster,
            ..info
        }
    } else {
        info
    }
}

/// The smallest cluster among `s[a..b]`, or `init` if it is smaller.
pub open spec fn min_cluster(s: Seq<hb_glyph_info_t>, a: int, b: int, init: u32) -> u32
    decreases b - a,
{
    if b <= a {
        init
    } else {
        let m = min_cluster(s, a, b - 1, init);
        if s[b - 1].cluster < m {
            s[b - 1].cluster
        } else {
            m
        }
    }
}

pub proof fn lemma_min_cluster(s: Seq<hb_glyph_info_t>, a: int, b: int, init: u32)
    requires
        0 <= a <= b <= s.len(),
    ensures
        min_cluster(s, a, b, init) <= init,
        forall|k: int| a <= k < b ==> min_cluster(s, a, b, init) <= #[trigger] s[k].cluster,
        min_cluster(s, a, b, init) == init || exists|k: int|
            a <= k < b && min_cluster(s, a, b, init) == #[trigger] s[k].cluster,
    decreases b - a,
{
    if b > a {
        lemma_min_cluster(s, a, b - 1, init);
    }
}

/// The end of the run of records, starting at `e`, that share the cluster
/// of the record before each of them, within the first `limit` records.
pub open spec fn run_end(s: Seq<hb_glyph_info_t>, e: int, limit: int) -> int
    decreases limit - e,
{
    if 0 < e < limit && e < s.len() && s[e - 1].cluster == s[e].cluster {
        run_end(s, e + 1, limit)
    } else {
        e
    }
}

pub proof fn lemma_run_end(s: Seq<hb_glyph_info_t>, e: int, limit: int)
    requires
        0 < e <= limit <= s.len(),
    ensures
        e <= run_end(s, e, limit) <= limit,
        forall|k: int| e <= k < run_end(s, e, limit) ==> #[trigger] s[k].cluster == s[e - 1].cluster,
        run_end(s, e, limit) < limit ==> s[run_end(s, e, limit) - 1].cluster != s[run_end(
            s,
            e,
            limit,
        )].cluster,
    decreases limit - e,
{
    if e < limit && s[e - 1].cluster == s[e].cluster {
        lemma_run_end(s, e + 1, limit);
    }
}

/// The start of the run of records that end at `n` and all have cluster `c`.
pub open spec fn run_start_back(s: Seq<hb_glyph_info_t>, n: int, c: u32) -> int
    decreases n,
{
    if n > 0 && n <= s.len() && s[n - 1].cluster == c {
        run_start_back(s, n - 1, c)
    } else {
        n
    }
}

pub proof fn lemma_run_start_back(s: Seq<hb_glyph_info_t>, n: int, c: u32)
    requires
        0 <= n <= s.len(),
    ensures
        0 <= run_start_back(s, n, c) <= n,
        forall|k: int| run_start_back(s, n, c) <= k < n ==> #[trigger] s[k].cluster == c,
        run_start_back(s, n, c) > 0 ==> s[run_start_back(s, n, c) - 1].cluster != c,
    decreases n,
{
    if n > 0 && s[n - 1].cluster == c {
        lemma_run_start_back(s, n - 1, c);
    }
}

/// The shaping buffer.
pub struct hb_buffer_t {
    /// How the text is to be treated (`BUFFER_FLAG_*`).
    pub flags: u32,
    /// The cluster level (`HB_BUFFER_CLUSTER_LEVEL_*`).
    pub cluster_level: u32,
    /// The glyph that replaces default-ignorables, if any.
    pub invisible: Option<u16>,
    pub direction: Direction,
    pub script: Option<Script>,
    pub language: Option<Language>,
    /// Whether every allocation so far succeeded.
    pub successful: bool,
    /// Whether a pass is producing output.
    pub have_output: bool,
    /// Whether the output lives in its own vector.
    pub have_separate_output: bool,
    /// Whether the positions are meaningful.
    pub have_positions: bool,
    /// The cursor into the input.
    pub idx: usize,
    /// The number of input records.
    pub len: usize,
    /// The number of output records.
    pub out_len: usize,
    /// The input records (and, while output is written in place, the output).
    pub info: Vec<hb_glyph_info_t>,
    /// The positions, one per input record.
    pub pos: Vec<GlyphPosition>,
    /// The output records, once the output outgrows the consumed input.
    pub out_sep: Vec<hb_glyph_info_t>,
    /// The text before (index 0) and after (index 1) the contents, nearest first.
    pub context: [[char; 5]; 2],
    pub context_len: [usize; 2],
    /// The serial number behind ligature ids.
    pub serial: u8,
    pub scratch_flags: u32,
    /// The most records the buffer grows to.
    pub max_len: usize,
    /// The most operations a pass performs.
    pub max_ops: i32,
}

impl hb_buffer_t {
    /// The buffer is well formed: its three vectors have one length, the
    /// records in use fit in them, and the output never overtakes the cursor
    /// while it is written in place.
    pub open spec fn wf(&self) -> bool {
        &&& self.info@.len() == self.pos@.len()
        &&& self.info@.len() == self.out_sep@.len()
        &&& self.info@.len() < usize::MAX
        &&& self.max_len < usize::MAX
        &&& self.len <= self.info@.len()
        &&& self.idx <= self.len
        &&& self.have_separate_output ==> self.have_output
        &&& self.have_separate_output ==> self.out_len <= self.info@.len()
        &&& !self.have_separate_output ==> self.out_len <= self.idx
        &&& self.context_len[0] <= CONTEXT_LENGTH
        &&& self.context_len[1] <= CONTEXT_LENGTH
    }

    /// Every field but the records and the scratch flags is as in `o`.
    pub open spec fn same_but_info(&self, o: &hb_buffer_t) -> bool {
        &&& self.flags == o.flags
        &&& self.cluster_level == o.cluster_level
        &&& self.invisible == o.invisible
        &&& self.direction == o.direction
        &&& self.script == o.script
        &&& self.language == o.language
        &&& self.successful == o.successful
        &&& self.have_output == o.have_output
        &&& self.have_separate_output == o.have_separate_output
        &&& self.have_positions == o.have_positions
        &&& self.idx == o.idx
        &&& self.len == o.len
        &&& self.out_len == o.out_len
        &&& self.pos@ == o.pos@
        &&& self.out_sep@ == o.out_sep@
        &&& self.context == o.context
        &&& self.context_len == o.context_len
        &&& self.serial == o.serial
        &&& self.max_len == o.max_len
        &&& self.max_ops == o.max_ops
    }

    /// The output records (all of the vector they live in).
    pub open spec fn out_seq(&self) -> Seq<hb_glyph_info_t> {
        if self.have_separate_output {
            self.out_sep@
        } else {
            self.info@
        }
    }

    /// The input records in use.
    pub open spec fn input(&self) -> Seq<hb_glyph_info_t> {
        self.info@.subrange(0, self.len as int)
    }

    /// The output records written so far.
    pub open spec fn output(&self) -> Seq<hb_glyph_info_t> {
        self.out_seq().subrange(0, self.out_len as int)
    }

    /// An empty buffer.
    pub fn new() -> (r: hb_buffer_t)
        ensures
            r.wf(),
            r.len == 0 && r.idx == 0 && r.out_len == 0,
            r.info@.len() == 0,
            !r.have_output && !r.have_separate_output && !r.have_positions,
            r.successful,
            r.flags == 0,
            r.cluster_level == HB_BUFFER_CLUSTER_LEVEL_DEFAULT,
            r.direction == Direction::Invalid,
            r.script is None && r.language is None,
            r.serial == 0 && r.scratch_flags == 0,
            r.max_len == MAX_LEN_DEFAULT && r.max_ops == MAX_OPS_DEFAULT,
            r.context_len[0] == 0 && r.context_len[1] == 0,
    {
        hb_buffer_t {
            flags: 0,
            cluster_level: HB_BUFFER_CLUSTER_LEVEL_DEFAULT,
            invisible: None,
            direction: Direction::Invalid,
            script: None,
            language: None,
            successful: true,
            have_output: false,
            have_separate_output: false,
            have_positions: false,
            idx: 0,
            len: 0,
            out_len: 0,
            info: Vec::new(),
            pos: Vec::new(),
            out_sep: Vec::new(),
            context: [['\0', '\0', '\0', '\0', '\0'], ['\0', '\0', '\0', '\0', '\0']],
            context_len: [0, 0],
            serial: 0,
            scratch_flags: 0,
            max_len: MAX_LEN_DEFAULT,
            max_ops: MAX_OPS_DEFAULT,
        }
    }

    /// The input records in use.
    pub fn info_slice(&self) -> (r: &[hb_glyph_info_t])
        requires
            self.wf(),
        ensures
            r@ == self.input(),
    {
        vstd::slice::slice_subrange(self.info.as_slice(), 0, self.len)
    }

    /// The positions of the records in use.
    pub fn pos_slice(&self) -> (r: &[GlyphPosition])
        requires
            self.wf(),
        ensures
            r@ == self.pos@.subrange(0, self.len as int),
    {
        vstd::slice::slice_subrange(self.pos.as_slice(), 0, self.len)
    }

    /// The record `i` places after the cursor.
    pub fn cur(&self, i: usize) -> (r: &hb_glyph_info_t)
        requires
            self.wf(),
            self.idx + i < self.info@.len(),
        ensures
            *r == self.info@[self.idx + i],
    {
        let n = self.info.len();
        &self.info[self.idx + i]
    }

    /// The last output record (the first one when there is none).
    pub fn prev(&self) -> (r: &hb_glyph_info_t)
        requires
            self.wf(),
            self.info@.len() > 0,
        ensures
            *r == self.out_seq()[if self.out_len == 0 { 0 } else { self.out_len - 1 }],
    {
        let i = if self.out_len == 0 { 0 } else { self.out_len - 1 };
        if self.have_separate_output {
            &self.out_sep[i]
        } else {
            &self.info[i]
        }
    }

    /// Whether the buffer holds no records.
    pub fn is_empty(&self) -> (r: bool)
        ensures
            r == (self.len == 0),
    {
        self.len == 0
    }

    /// How many records lie behind the cursor: the output when a pass
    /// produces one, else the consumed input.
    pub fn backtrack_len(&self) -> (r: usize)
        ensures
            r == if self.have_output { self.out_len } else { self.idx },
    {
        if self.have_output {
            self.out_len
        } else {
            self.idx
        }
    }

    /// How many input records lie at or after the cursor.
    pub fn lookahead_len(&self) -> (r: usize)
        requires
            self.wf(),
        ensures
            r == self.len - self.idx,
    {
        self.len - self.idx
    }

    /// The next serial number, skipping 0.
    pub fn next_serial(&mut self) -> (r: u8)
        ensures
            r != 0,
            r == (if old(self).serial == 255 { 1u8 } else { (old(self).serial + 1) as u8 }),
            final(self).serial == r,
            final(self).info == old(self).info,
            final(self).len == old(self).len,
            final(self).idx == old(self).idx,
            final(self).out_len == old(self).out_len,
            final(self).pos == old(self).pos,
            final(self).out_sep == old(self).out_sep,
            final(self).have_output == old(self).have_output,
            final(self).have_separate_output == old(self).have_separate_output,
            final(self).context_len == old(self).context_len,
    {
        if self.serial == 255 {
            self.serial = 1;
        } else {
            self.serial = self.serial + 1;
        }
        self.serial
    }

    /// A new ligature id: the low three bits of the next serial numbers,
    /// skipping 0.
    pub fn allocate_lig_id(&mut self) -> (r: u8)
        ensures
            1 <= r <= 7,
            ({
                let s1: u8 = if old(self).serial == 255 { 1u8 } else { (old(self).serial + 1) as u8 };
                let s2: u8 = if s1 == 255 { 1u8 } else { (s1 + 1) as u8 };
                &&& s1 & 7 != 0 ==> r == s1 & 7 && final(self).serial == s1
                &&& s1 & 7 == 0 ==> r == s2 & 7 && final(self).serial == s2
            }),
            final(self).info == old(self).info,
            final(self).len == old(self).len,
            final(self).idx == old(self).idx,
            final(self).out_len == old(self).out_len,
            final(self).pos == old(self).pos,
            final(self).out_sep == old(self).out_sep,
            final(self).have_output == old(self).have_output,
            final(self).have_separate_output == old(self).have_separate_output,
            final(self).context_len == old(self).context_len,
    {
        let s1 = self.next_serial();
        let lig_id = s1 & 0x07;
        if lig_id != 0 {
            assert(s1 & 7 <= 7) by (bit_vector);
            return lig_id;
        }
        let s2 = self.next_serial();
        assert(s1 & 7 == 0 && s2 == (if s1 == 255 { 1u8 } else { (s1 + 1) as u8 }) ==> s2 & 7 != 0
            && s2 & 7 <= 7) by (bit_vector);
        s2 & 0x07
    }

    /// Makes room for `size` records: unless `size` is below the number of
    /// records in use, the vectors are resized to exactly `size` (new
    /// records and positions are zero). Past the buffer's limit nothing is
    /// resized and the buffer is marked unsuccessful.
    pub fn ensure(&mut self, size: usize) -> (r: bool)
        requires
            old(self).wf(),
            old(self).have_separate_output ==> old(self).out_len <= size || size < old(self).len,
        ensures
            final(self).wf(),
            r == (size < old(self).len || size <= old(self).max_len),
            size < old(self).len ==> *final(self) == *old(self),
            size >= old(self).len && !r ==> *final(self) == (hb_buffer_t { successful: false, ..*old(self) }),
            size >= old(self).len && r ==> {
                &&& final(self).info@ == resized(old(self).info@, size as int, zero_info())
                &&& final(self).out_sep@ == resized(old(self).out_sep@, size as int, zero_info())
                &&& final(self).pos@ == resized(old(self).pos@, size as int, zero_pos())
                &&& *final(self) == (hb_buffer_t { info: final(self).info, pos: final(self).pos, out_sep: final(self).out_sep, ..*old(self) })
            },
    {
        if size < self.len {
            return true;
        }
        if size > self.max_len {
            self.successful = false;
            return false;
        }
        let ghost oi = self.info@;
        let ghost oo = self.out_sep@;
        let ghost op = self.pos@;
        self.info.resize(size, hb_glyph_info_t::empty());
        self.pos.resize(size, GlyphPosition::new());
        self.out_sep.resize(size, hb_glyph_info_t::empty());
        proof {
            lemma_resized(oi, self.info@, size as int, zero_info());
            lemma_resized(oo, self.out_sep@, size as int, zero_info());
            lemma_resized(op, self.pos@, size as int, zero_pos());
        }
        true
    }

    /// The input records not yet consumed.
    pub open spec fn pending(&self) -> Seq<hb_glyph_info_t> {
        self.info@.subrange(self.idx as int, self.len as int)
    }

    /// Sets the number of records in use, making room for them.
    pub fn set_len(&mut self, len: usize)
        requires
            old(self).wf(),
            old(self).idx <= len,
            old(self).have_separate_output ==> old(self).out_len <= len,
            len <= old(self).max_len || len < old(self).len,
        ensures
            final(self).wf(),
            final(self).len == len,
            final(self).idx == old(self).idx,
            final(self).out_len == old(self).out_len,
            len < old(self).len ==> final(self).info == old(self).info,
            len >= old(self).len ==> final(self).info@ == resized(old(self).info@, len as int, zero_info()),
            final(self).have_output == old(self).have_output,
            final(self).have_separate_output == old(self).have_separate_output,
            final(self).have_positions == old(self).have_positions,
            final(self).cluster_level == old(self).cluster_level,
            final(self).successful == old(self).successful,
    {
        self.ensure(len);
        self.len = len;
    }

    /// Appends the record of character `codepoint` in cluster `cluster`.
    pub fn add(&mut self, codepoint: u32, cluster: u32)
        requires
            old(self).wf(),
            old(self).len < old(self).max_len,
            old(self).have_separate_output ==> old(self).out_len <= old(self).len + 1,
        ensures
            final(self).wf(),
            final(self).len == old(self).len + 1,
            final(self).input() == old(self).input().push(hb_glyph_info_t {
                glyph_id: codepoint,
                mask: 0,
                cluster,
                var1: 0,
                var2: 0,
            }),
            final(self).idx == old(self).idx,
            final(self).out_len == old(self).out_len,
            final(self).have_output == old(self).have_output,
            final(self).have_separate_output == old(self).have_separate_output,
            final(self).have_positions == old(self).have_positions,
            final(self).cluster_level == old(self).cluster_level,
            final(self).flags == old(self).flags,
            final(self).successful == old(self).successful,
            final(self).context == old(self).context,
            final(self).context_len == old(self).context_len,
            final(self).max_len == old(self).max_len,
    {
        let n = self.len;
        self.ensure(n + 1);
        let ghost mid = self.info@;
        let g = hb_glyph_info_t::new(codepoint, cluster);
        self.info.set(n, g);
        self.len = n + 1;
        assert(self.input() =~= old(self).input().push(g));
    }

    /// Reverses the records (and, when positions are kept, the positions)
    /// from `start` up to `end`.
    pub fn reverse_range(&mut self, start: usize, end: usize)
        requires
            old(self).wf(),
            start <= end <= old(self).len,
        ensures
            final(self).wf(),
            final(self).info@ == reversed_range(old(self).info@, start as int, end as int),
            old(self).have_positions ==> final(self).pos@ == reversed_range(old(self).pos@, start as int, end as int),
            !old(self).have_positions ==> final(self).pos@ == old(self).pos@,
            *final(self) == (hb_buffer_t { info: final(self).info, pos: final(self).pos, ..*old(self) }),
    {
        if end - start < 2 {
            proof {
                assert(reversed_range(old(self).info@, start as int, end as int) =~= old(self).info@);
                assert(reversed_range(old(self).pos@, start as int, end as int) =~= old(self).pos@);
            }
            return;
        }
        reverse_vec_range(&mut self.info, start, end);
        if self.have_positions {
            reverse_vec_range(&mut self.pos, start, end);
        }
    }

    /// Reverses all the records in use.
    pub fn reverse(&mut self)
        requires
            old(self).wf(),
        ensures
            final(self).wf(),
            final(self).info@ == reversed_range(old(self).info@, 0, old(self).len as int),
            final(self).input() == old(self).input().reverse(),
            old(self).have_positions ==> final(self).pos@ == reversed_range(old(self).pos@, 0, old(self).len as int),
            !old(self).have_positions ==> final(self).pos@ == old(self).pos@,
            *final(self) == (hb_buffer_t { info: final(self).info, pos: final(self).pos, ..*old(self) }),
    {
        if self.is_empty() {
            proof {
                assert(reversed_range(old(self).info@, 0, 0) =~= old(self).info@);
                assert(reversed_range(old(self).pos@, 0, 0) =~= old(self).pos@);
                assert(old(self).input().reverse() =~= old(self).input());
            }
            return;
        }
        let n = self.len;
        self.reverse_range(0, n);
        assert(self.input() =~= old(self).input().reverse());
    }

    /// Sets the mask of every record in use to `mask`.
    pub fn reset_masks(&mut self, mask: u32)
        requires
            old(self).wf(),
        ensures
            final(self).wf(),
            final(self).info@.len() == old(self).info@.len(),
            forall|k: int| 0 <= k < old(self).info@.len() ==> #[trigger] final(self).info@[k] == (
                if k < old(self).len { hb_glyph_info_t { mask, ..old(self).info@[k] } } else { old(self).info@[k] }),
            *final(self) == (hb_buffer_t { info: final(self).info, ..*old(self) }),
    {
        let n = self.len;
        let mut i: usize = 0;
        while i < n
            invariant
                n == self.len,
                self.len == old(self).len,
                i <= n,
                self.info@.len() == old(self).info@.len(),
                n <= self.info@.len(),
                forall|k: int| 0 <= k < old(self).info@.len() ==> #[trigger] self.info@[k] == (
                    if k < i { hb_glyph_info_t { mask, ..old(self).info@[k] } } else { old(self).info@[k] }),
                *self == (hb_buffer_t { info: self.info, ..*old(self) }),
            decreases n - i,
        {
            let mut g = self.info[i];
            g.mask = mask;
            self.info.set(i, g);
            i = i + 1;
        }
    }

    /// Sets the bits of `mask` to those of `value` in the records in use
    /// whose cluster lies in `cluster_start..cluster_end`; with the range
    /// `0..u32::MAX`, in all of them.
    pub fn set_masks(&mut self, value: u32, mask: u32, cluster_start: u32, cluster_end: u32)
        requires
            old(self).wf(),
        ensures
            final(self).wf(),
            final(self).info@.len() == old(self).info@.len(),
            forall|k: int| 0 <= k < old(self).info@.len() ==> #[trigger] final(self).info@[k] == (
                if k < old(self).len && mask != 0 && ((cluster_start == 0 && cluster_end == u32::MAX)
                    || (cluster_start <= old(self).info@[k].cluster < cluster_end)) {
                    hb_glyph_info_t { mask: (old(self).info@[k].mask & !mask) | (value & mask), ..old(self).info@[k] }
                } else {
                    old(self).info@[k]
                }),
            *final(self) == (hb_buffer_t { info: final(self).info, ..*old(self) }),
    {
        let not_mask = !mask;
        let value = value & mask;
        if mask == 0 {
            return;
        }
        let all = cluster_start == 0 && cluster_end == u32::MAX;
        let n = self.len;
        let mut i: usize = 0;
        while i < n
            invariant
                n == self.len,
                self.len == old(self).len,
                i <= n,
                not_mask == !mask,
                mask != 0,
                all == (cluster_start == 0 && cluster_end == u32::MAX),
                self.info@.len() == old(self).info@.len(),
                n <= self.info@.len(),
                forall|k: int| 0 <= k < old(self).info@.len() ==> #[trigger] self.info@[k] == (
                    if k < i && (all || (cluster_start <= old(self).info@[k].cluster < cluster_end)) {
                        hb_glyph_info_t { mask: (old(self).info@[k].mask & not_mask) | value, ..old(self).info@[k] }
                    } else {
                        old(self).info@[k]
                    }),
                *self == (hb_buffer_t { info: self.info, ..*old(self) }),
            decreases n - i,
        {
            let mut g = self.info[i];
            if all || (cluster_start <= g.cluster && g.cluster < cluster_end) {
                g.mask = (g.mask & not_mask) | value;
                self.info.set(i, g);
            }
            i = i + 1;
        }
    }

    /// Numbers the clusters of all the records by their index.
    pub fn reset_clusters(&mut self)
        requires
            old(self).wf(),
        ensures
            final(self).wf(),
            final(self).info@.len() == old(self).info@.len(),
            forall|k: int| 0 <= k < old(self).info@.len() ==> #[trigger] final(self).info@[k] == (hb_glyph_info_t {
                cluster: k as u32,
                ..old(self).info@[k]
            }),
            *final(self) == (hb_buffer_t { info: final(self).info, ..*old(self) }),
    {
        let n = self.info.len();
        let mut i: usize = 0;
        while i < n
            invariant
                n == self.info@.len(),
                self.info@.len() == old(self).info@.len(),
                i <= n,
                forall|k: int| 0 <= k < old(self).info@.len() ==> #[trigger] self.info@[k] == (
                    if k < i { hb_glyph_info_t { cluster: k as u32, ..old(self).info@[k] } } else { old(self).info@[k] }),
                *self == (hb_buffer_t { info: self.info, ..*old(self) }),
            decreases n - i,
        {
            let mut g = self.info[i];
            g.cluster = #[verifier::truncate] (i as u32);
            self.info.set(i, g);
            i = i + 1;
        }
    }

    /// The end of the syllable that starts at `start`: the first record
    /// after it with another syllable, or the end of the records in use.
    pub fn next_syllable(&self, start: usize) -> (r: usize)
        requires
            self.wf(),
        ensures
            r == syllable_end(self.info@, start as int, self.len as int),
            start >= self.len ==> r == start,
            start < self.len ==> {
                &&& start < r <= self.len
                &&& forall|k: int| start <= k < r ==> #[trigger] self.info@[k].syllable() == self.info@[start as int].syllable()
                &&& r < self.len ==> self.info@[r as int].syllable() != self.info@[start as int].syllable()
            },
    {
        if start >= self.len {
            return start;
        }
        let syllable = self.info[start].syllable();
        let mut i = start + 1;
        while i < self.len && syllable == self.info[i].syllable()
            invariant
                self.wf(),
                start < i <= self.len,
                syllable == self.info@[start as int].syllable(),
                forall|k: int| start <= k < i ==> #[trigger] self.info@[k].syllable() == syllable,
                syllable_run(self.info@, i as int, self.len as int, syllable) == syllable_run(
                    self.info@,
                    start + 1,
                    self.len as int,
                    syllable,
                ),
            decreases self.len - i,
        {
            i = i + 1;
        }
        i
    }

    /// Marks each syllable, one after the other, unsafe to break (see
    /// `unsafe_to_break` and `syllables_flagged`).
    pub fn unsafe_to_break_syllables(&mut self)
        requires
            old(self).wf(),
        ensures
            final(self).wf(),
            (final(self).info@, final(self).scratch_flags) == syllables_flagged(
                old(self).info@,
                old(self).scratch_flags,
                0,
                old(self).len as int,
            ),
            *final(self) == (hb_buffer_t { info: final(self).info, scratch_flags: final(self).scratch_flags, ..*old(self) }),
    {
        let mut start: usize = 0;
        let mut end = self.next_syllable(0);
        while start < self.len
            invariant
                self.wf(),
                self.len == old(self).len,
                start <= self.len,
                end == syllable_end(self.info@, start as int, self.len as int),
                syllables_flagged(self.info@, self.scratch_flags, start as int, self.len as int) == syllables_flagged(
                    old(self).info@,
                    old(self).scratch_flags,
                    0,
                    old(self).len as int,
                ),
                *self == (hb_buffer_t { info: self.info, scratch_flags: self.scratch_flags, ..*old(self) }),
            decreases self.len - start,
        {
            proof {
                lemma_syllable_run_bounds(self.info@, start + 1, self.len as int, self.info@[start as int].syllable());
            }
            self.unsafe_to_break(Some(start), Some(end));
            start = end;
            end = self.next_syllable(start);
        }
    }

    /// The end of the group that starts at `start`: records from `start`
    /// on belong to it while `group` holds of each record and the one
    /// before it.
    pub fn group_end<F: Fn(&hb_glyph_info_t, &hb_glyph_info_t) -> bool>(&self, start: usize, group: F) -> (r: usize)
        requires
            self.wf(),
            start < usize::MAX,
            forall|k: int| 0 < k < self.len ==> #[trigger] group.requires((&self.info@[k - 1], &self.info@[k])),
        ensures
            r >= start + 1,
            start + 1 < self.len ==> r <= self.len,
            start + 1 >= self.len ==> r == start + 1,
            forall|k: int| start < k < r ==> #[trigger] group.ensures((&self.info@[k - 1], &self.info@[k]), true),
            r < self.len ==> group.ensures((&self.info@[r - 1], &self.info@[r as int]), false),
    {
        let mut i = start + 1;
        while i < self.len
            invariant
                self.wf(),
                start + 1 <= i,
                start + 1 < self.len ==> i <= self.len,
                start + 1 >= self.len ==> i == start + 1,
                forall|k: int| 0 < k < self.len ==> #[trigger] group.requires((&self.info@[k - 1], &self.info@[k])),
                forall|k: int| start < k < i ==> #[trigger] group.ensures((&self.info@[k - 1], &self.info@[k]), true),
            decreases self.len - i,
        {
            let same = group(&self.info[i - 1], &self.info[i]);
            if !same {
                return i;
            }
            i = i + 1;
        }
        i
    }

    /// Empties the buffer and resets its properties; the flags, the
    /// invisible glyph and the limits are kept.
    pub fn clear(&mut self)
        ensures
            final(self).len == 0 && final(self).idx == 0 && final(self).out_len == 0,
            final(self).info@.len() == 0,
            !final(self).have_output && !final(self).have_separate_output && !final(self).have_positions,
            final(self).successful,
            final(self).direction == Direction::Invalid,
            final(self).script is None && final(self).language is None,
            final(self).context_len[0] == 0 && final(self).context_len[1] == 0,
            forall|side: int, k: int| 0 <= side < 2 && 0 <= k < 5 ==> final(self).context[side][k] == '\0',
            final(self).serial == 0 && final(self).scratch_flags == 0,
            final(self).cluster_level == HB_BUFFER_CLUSTER_LEVEL_DEFAULT,
            final(self).flags == old(self).flags,
            final(self).invisible == old(self).invisible,
            final(self).max_len == old(self).max_len,
            final(self).max_ops == old(self).max_ops,
            old(self).max_len < usize::MAX ==> final(self).wf(),
    {
        self.direction = Direction::Invalid;
        self.script = None;
        self.language = None;
        self.successful = true;
        self.have_output = false;
        self.have_positions = false;
        self.idx = 0;
        self.info = Vec::new();
        self.pos = Vec::new();
        self.out_sep = Vec::new();
        self.len = 0;
        self.out_len = 0;
        self.have_separate_output = false;
        self.context = [['\0', '\0', '\0', '\0', '\0'], ['\0', '\0', '\0', '\0', '\0']];
        self.context_len = [0, 0];
        self.serial = 0;
        self.scratch_flags = 0;
        self.cluster_level = HB_BUFFER_CLUSTER_LEVEL_DEFAULT;
    }

    /// Forgets the text on one side of the contents: before (0) or after (1).
    pub fn clear_context(&mut self, side: usize)
        requires
            side < 2,
        ensures
            final(self).context_len[side as int] == 0,
            final(self).context_len[1 - side] == old(self).context_len[1 - side],
            *final(self) == (hb_buffer_t { context_len: final(self).context_len, ..*old(self) }),
    {
        self.context_len[side] = 0;
    }

    /// Prepares the limits of a shaping pass: at most `MAX_LEN_FACTOR`
    /// records per input record (at least `MAX_LEN_MIN`) and
    /// `MAX_OPS_FACTOR` operations per input record (at least
    /// `MAX_OPS_MIN`); a limit whose product does not fit stays as it was.
    pub fn enter(&mut self)
        requires
            old(self).wf(),
        ensures
            final(self).wf(),
            final(self).serial == 0,
            final(self).scratch_flags == 0,
            final(self).max_len == (if old(self).len * MAX_LEN_FACTOR <= usize::MAX {
                if old(self).len * MAX_LEN_FACTOR >= MAX_LEN_MIN { (old(self).len * MAX_LEN_FACTOR) as usize } else { MAX_LEN_MIN }
            } else {
                old(self).max_len
            }),
            final(self).max_ops == (if old(self).len * MAX_OPS_FACTOR <= i32::MAX {
                if old(self).len * MAX_OPS_FACTOR >= MAX_OPS_MIN { (old(self).len * MAX_OPS_FACTOR) as i32 } else { MAX_OPS_MIN }
            } else {
                old(self).max_ops
            }),
            *final(self) == (hb_buffer_t { serial: 0, scratch_flags: 0, max_len: final(self).max_len,
                max_ops: final(self).max_ops, ..*old(self) }),
    {
        self.serial = 0;
        self.scratch_flags = 0;
        match self.len.checked_mul(MAX_LEN_FACTOR) {
            Some(len) => {
                assert(len != usize::MAX) by (nonlinear_arith)
                    requires
                        len == self.len * 64,
                        usize::MAX % 64 == 63,
                ;
                self.max_len = if len >= MAX_LEN_MIN { len } else { MAX_LEN_MIN };
            },
            None => {},
        }
        if self.len <= i32::MAX as usize {
            let len = self.len as i32;
            match len.checked_mul(MAX_OPS_FACTOR) {
                Some(ops) => {
                    self.max_ops = if ops >= MAX_OPS_MIN { ops } else { MAX_OPS_MIN };
                },
                None => {},
            }
        }
    }

    /// Restores the default limits after a shaping pass.
    pub fn leave(&mut self)
        ensures
            *final(self) == (hb_buffer_t { serial: 0, max_len: MAX_LEN_DEFAULT, max_ops: MAX_OPS_DEFAULT,
                ..*old(self) }),
    {
        self.max_len = MAX_LEN_DEFAULT;
        self.max_ops = MAX_OPS_DEFAULT;
        self.serial = 0;
    }

    /// Appends the characters of `text`, each with its byte offset in the
    /// text as its cluster.
    pub fn push_str(&mut self, text: &str)
        requires
            old(self).wf(),
            old(self).len + text@.len() <= old(self).max_len,
            old(self).have_separate_output ==> old(self).out_len <= old(self).len,
        ensures
            final(self).wf(),
            final(self).len == old(self).len + text@.len(),
            final(self).input() == old(self).input() + Seq::new(text@.len(), |k: int| text_record(text@, k)),
            final(self).idx == old(self).idx,
            final(self).out_len == old(self).out_len,
            final(self).have_output == old(self).have_output,
            final(self).have_separate_output == old(self).have_separate_output,
            final(self).successful == old(self).successful,
            final(self).context == old(self).context,
            final(self).context_len == old(self).context_len,
    {
        let chars = text_chars(text);
        let n = chars.len();
        self.ensure(self.len + n);
        let ghost start = self.input();
        let ghost len0 = self.len;
        let mut k: usize = 0;
        let mut off: u32 = 0;
        while k < n
            invariant
                self.wf(),
                n == chars@.len(),
                chars@ == text@,
                k <= n,
                self.len == len0 + k,
                len0 + n <= self.max_len,
                self.have_separate_output ==> self.out_len <= self.len,
                off == (byte_offset(text@, k as int) % 0x1_0000_0000) as u32,
                self.input() == start + Seq::new(k as nat, |x: int| text_record(text@, x)),
                self.idx == old(self).idx,
                self.out_len == old(self).out_len,
                self.have_output == old(self).have_output,
                self.have_separate_output == old(self).have_separate_output,
                self.successful == old(self).successful,
                self.context == old(self).context,
                self.context_len == old(self).context_len,
                start == old(self).input(),
                len0 == old(self).len,
            decreases n - k,
        {
            let c = chars[k];
            self.add(c as u32, off);
            let l = utf8_len_exec(c);
            proof {
                let b = byte_offset(text@, k as int);
                assert(byte_offset(text@, k + 1) == b + l);
                vstd::arithmetic::div_mod::lemma_add_mod_noop(b, l as int, 0x1_0000_0000);
                vstd::arithmetic::div_mod::lemma_small_mod(l as nat, 0x1_0000_0000);
                assert(self.input() =~= start + Seq::new((k + 1) as nat, |x: int| text_record(text@, x)));
            }
            off = off.wrapping_add(l);
            k = k + 1;
        }
    }

    /// Sets the text before the contents: its last characters, nearest
    /// first, at most `CONTEXT_LENGTH` of them.
    pub fn set_pre_context(&mut self, text: &str)
        requires
            old(self).wf(),
        ensures
            final(self).wf(),
            final(self).context_len[0] == (if text@.len() < CONTEXT_LENGTH { text@.len() as usize } else { CONTEXT_LENGTH }),
            forall|k: int| 0 <= k < final(self).context_len[0] ==> final(self).context[0][k] == text@[text@.len() - 1 - k],
            forall|k: int| final(self).context_len[0] <= k < 5 ==> final(self).context[0][k] == old(self).context[0][k],
            final(self).context[1] == old(self).context[1],
            final(self).context_len[1] == old(self).context_len[1],
            *final(self) == (hb_buffer_t { context: final(self).context, context_len: final(self).context_len, ..*old(self) }),
    {
        self.clear_context(0);
        let chars = text_chars(text);
        let n = chars.len();
        let mut i: usize = 0;
        while i < n && i < CONTEXT_LENGTH
            invariant
                chars@ == text@,
                n == chars@.len(),
                i <= n,
                i <= CONTEXT_LENGTH,
                self.context_len[0] == i,
                forall|k: int| 0 <= k < i ==> self.context[0][k] == text@[text@.len() - 1 - k],
                forall|k: int| i <= k < 5 ==> self.context[0][k] == old(self).context[0][k],
                self.context[1] == old(self).context[1],
                self.context_len[1] == old(self).context_len[1],
                *self == (hb_buffer_t { context: self.context, context_len: self.context_len, ..*old(self) }),
            decreases n - i,
        {
            self.context[0][i] = chars[n - 1 - i];
            self.context_len[0] = self.context_len[0] + 1;
            i = i + 1;
        }
    }

    /// Sets the text after the contents: its first characters, at most
    /// `CONTEXT_LENGTH` of them.
    pub fn set_post_context(&mut self, text: &str)
        requires
            old(self).wf(),
        ensures
            final(self).wf(),
            final(self).context_len[1] == (if text@.len() < CONTEXT_LENGTH { text@.len() as usize } else { CONTEXT_LENGTH }),
            forall|k: int| 0 <= k < final(self).context_len[1] ==> final(self).context[1][k] == text@[k],
            forall|k: int| final(self).context_len[1] <= k < 5 ==> final(self).context[1][k] == old(self).context[1][k],
            final(self).context[0] == old(self).context[0],
            final(self).context_len[0] == old(self).context_len[0],
            *final(self) == (hb_buffer_t { context: final(self).context, context_len: final(self).context_len, ..*old(self) }),
    {
        self.clear_context(1);
        let chars = text_chars(text);
        let n = chars.len();
        let mut i: usize = 0;
        while i < n && i < CONTEXT_LENGTH
            invariant
                chars@ == text@,
                n == chars@.len(),
                i <= n,
                i <= CONTEXT_LENGTH,
                self.context_len[1] == i,
                forall|k: int| 0 <= k < i ==> self.context[1][k] == text@[k],
                forall|k: int| i <= k < 5 ==> self.context[1][k] == old(self).context[1][k],
                self.context[0] == old(self).context[0],
                self.context_len[0] == old(self).context_len[0],
                *self == (hb_buffer_t { context: self.context, context_len: self.context_len, ..*old(self) }),
            decreases n - i,
        {
            self.context[1][i] = chars[i];
            self.context_len[1] = self.context_len[1] + 1;
            i = i + 1;
        }
    }

    /// Merges the clusters of output records `start..end`: they, the
    /// output records around them that continue their first and last
    /// clusters, and, when that reaches the end of the output, the input
    /// records at the cursor that continue the last cluster, all get the
    /// smallest cluster of `start..end`. Nothing merges at the characters
    /// cluster level, or below two records.
    pub fn merge_out_clusters(&mut self, start: usize, end: usize)
        requires
            old(self).wf(),
            start <= end <= old(self).out_len,
        ensures
            final(self).wf(),
            (old(self).cluster_level == HB_BUFFER_CLUSTER_LEVEL_CHARACTERS || end - start < 2) ==> *final(self) == *old(self),
            !(old(self).cluster_level == HB_BUFFER_CLUSTER_LEVEL_CHARACTERS || end - start < 2) ==> is_out_merged(
                *old(self), *final(self), start as int, end as int),
    {
        if self.cluster_level == HB_BUFFER_CLUSTER_LEVEL_CHARACTERS {
            return;
        }
        if end - start < 2 {
            return;
        }
        let ghost b0 = *self;
        let ghost out = self.out_seq();
        let cluster = if self.have_separate_output {
            Self::_infos_find_min_cluster(&self.out_sep, start, end, None)
        } else {
            Self::_infos_find_min_cluster(&self.info, start, end, None)
        };
        let mut st = start;
        while st != 0 && self.out_cluster(st - 1) == self.out_cluster(st)
            invariant
                self.wf(),
                *self == b0,
                out == b0.out_seq(),
                st <= start < end <= b0.out_len <= out.len(),
                run_begin(out, st as int) == run_begin(out, start as int),
            decreases st,
        {
            st = st - 1;
        }
        let mut en = end;
        while en < self.out_len && self.out_cluster(en - 1) == self.out_cluster(en)
            invariant
                self.wf(),
                *self == b0,
                out == b0.out_seq(),
                start < end <= en <= b0.out_len <= out.len(),
                run_end(out, en as int, b0.out_len as int) == run_end(out, end as int, b0.out_len as int),
            decreases b0.out_len - en,
        {
            en = en + 1;
        }
        let ghost k_end = out_merge_tail(b0, end as int);
        if en == self.out_len {
            let c_last = self.out_cluster(en - 1);
            let mut i = self.idx;
            while i < self.len && self.info[i].cluster == c_last
                invariant
                    self.wf(),
                    b0.wf(),
                    out == b0.out_seq(),
                    en == b0.out_len,
                    0 < en <= out.len(),
                    c_last == out[en - 1].cluster,
                    b0.idx <= i <= b0.len,
                    b0.out_len <= b0.idx || b0.have_separate_output,
                    self.info@.len() == b0.info@.len(),
                    run_while(b0.info@, i as int, b0.len as int, c_last) == k_end,
                    forall|x: int| 0 <= x < b0.info@.len() ==> #[trigger] self.info@[x] == (
                        if b0.idx <= x < i { with_cluster(b0.info@[x], cluster, 0) } else { b0.info@[x] }),
                    *self == (hb_buffer_t { info: self.info, ..b0 }),
                decreases b0.len - i,
            {
                let mut g = self.info[i];
                Self::set_cluster(&mut g, cluster, 0);
                self.info.set(i, g);
                i = i + 1;
            }
            assert(self.info@ =~= clustered(b0.info@, b0.idx as int, k_end, cluster, 0));
        } else {
            assert(self.info@ =~= clustered(b0.info@, b0.idx as int, k_end, cluster, 0));
        }
        let ghost b1 = *self;
        proof {
            assert(st == run_begin(out, start as int));
            assert(en == out_merge_end(b0, end as int));
            assert(b1.out_len == b0.out_len && b1.idx == b0.idx && b1.len == b0.len);
            assert(b1.have_separate_output ==> b1.out_sep == b0.out_sep);
        }
        let mut i = st;
        while i < en
            invariant
                self.wf(),
                b1.wf(),
                st <= i <= en <= b1.out_len <= b1.out_seq().len(),
                self.out_seq().len() == b1.out_seq().len(),
                forall|x: int| 0 <= x < b1.out_seq().len() ==> #[trigger] self.out_seq()[x] == (
                    if st <= x < i { with_cluster(b1.out_seq()[x], cluster, 0) } else { b1.out_seq()[x] }),
                b1.have_separate_output ==> self.info == b1.info,
                !b1.have_separate_output ==> self.out_sep == b1.out_sep,
                *self == (hb_buffer_t { info: self.info, out_sep: self.out_sep, ..b1 }),
            decreases en - i,
        {
            let mut g = self.out_get(i);
            Self::set_cluster(&mut g, cluster, 0);
            self.set_out_info(i, g);
            i = i + 1;
        }
        proof {
            assert(self.out_seq() =~= clustered(b1.out_seq(), st as int, en as int, cluster, 0));
            if b0.have_separate_output {
                assert(self.out_sep@ =~= clustered(b0.out_sep@, st as int, en as int, cluster, 0));
            } else {
                assert(en <= b0.idx);
                assert(self.info@ =~= clustered(clustered(b0.info@, st as int, en as int, cluster, 0), b0.idx as int, k_end, cluster, 0));
            }
        }
    }

    /// Deletes in place the records that `filter` picks, keeping the
    /// positions of the others with them; the clusters of deleted records
    /// pass to their neighbours (see `deleted_from`). The buffer is not in
    /// the middle of a pass.
    pub fn delete_glyphs_inplace<F: Fn(&hb_glyph_info_t) -> bool>(&mut self, filter: F)
        requires
            old(self).wf(),
            old(self).idx == 0,
            forall|g: hb_glyph_info_t| #[trigger] filter.requires((&g,)),
        ensures
            final(self).wf(),
            deleted_from(filter, old(self).len as int, *old(self), *final(self), 0, 0),
    {
        let ghost b0 = *self;
        let n = self.len;
        let mut j: usize = 0;
        let mut i: usize = 0;
        while i < n
            invariant
                self.wf(),
                n == b0.len,
                self.len == n,
                self.idx == 0,
                j <= i <= n,
                forall|g: hb_glyph_info_t| #[trigger] filter.requires((&g,)),
                forall|bf: hb_buffer_t|
                    #[trigger] deleted_from(filter, n as int, *self, bf, i as int, j as int)
                        ==> deleted_from(filter, n as int, b0, bf, 0, 0),
            decreases n - i,
        {
            let ghost cur = *self;
            let g = self.info[i];
            let r = filter(&g);
            if r {
                let cluster = g.cluster;
                if i + 1 < n && cluster == self.info[i + 1].cluster {
                    proof {
                        assert forall|bf: hb_buffer_t|
                            #[trigger] deleted_from(filter, n as int, *self, bf, i + 1, j as int)
                                implies deleted_from(filter, n as int, b0, bf, 0, 0) by {
                            assert(deleted_from(filter, n as int, cur, bf, i as int, j as int));
                        }
                    }
                    i = i + 1;
                    continue;
                }
                if j != 0 {
                    if cluster < self.info[j - 1].cluster {
                        let mask = g.mask;
                        let old_cluster = self.info[j - 1].cluster;
                        let mut k = j;
                        while k > 0 && self.info[k - 1].cluster == old_cluster
                            invariant
                                self.wf(),
                                cur.wf(),
                                0 < j <= i < n == cur.len,
                                k <= j,
                                old_cluster == cur.info@[j - 1].cluster,
                                run_start_back(cur.info@, j as int, old_cluster) == run_start_back(cur.info@, k as int, old_cluster),
                                self.info@.len() == cur.info@.len(),
                                forall|x: int| 0 <= x < cur.info@.len() ==> #[trigger] self.info@[x] == (
                                    if k <= x < j { with_cluster(cur.info@[x], cluster, mask) } else { cur.info@[x] }),
                                *self == (hb_buffer_t { info: self.info, ..cur }),
                            decreases k,
                        {
                            let mut h = self.info[k - 1];
                            Self::set_cluster(&mut h, cluster, mask);
                            self.info.set(k - 1, h);
                            k = k - 1;
                        }
                        proof {
                            assert(self.info@ =~= back_merged(cur.info@, j as int, cluster, mask));
                            assert(with_info_pos(cur, *self, back_merged(cur.info@, j as int, cluster, mask), cur.pos@));
                            assert forall|bf: hb_buffer_t|
                                #[trigger] deleted_from(filter, n as int, *self, bf, i + 1, j as int)
                                    implies deleted_from(filter, n as int, b0, bf, 0, 0) by {
                                assert(deleted_from(filter, n as int, cur, bf, i as int, j as int));
                            }
                        }
                    } else {
                        proof {
                            assert forall|bf: hb_buffer_t|
                                #[trigger] deleted_from(filter, n as int, *self, bf, i + 1, j as int)
                                    implies deleted_from(filter, n as int, b0, bf, 0, 0) by {
                                assert(deleted_from(filter, n as int, cur, bf, i as int, j as int));
                            }
                        }
                    }
                    i = i + 1;
                    continue;
                }
                if i + 1 < n {
                    self.merge_clusters(i, i + 2);
                    proof {
                        assert(is_merged(cur, *self, i as int, i + 2));
                    }
                }
                proof {
                    assert forall|bf: hb_buffer_t|
                        #[trigger] deleted_from(filter, n as int, *self, bf, i + 1, j as int)
                            implies deleted_from(filter, n as int, b0, bf, 0, 0) by {
                        assert(deleted_from(filter, n as int, cur, bf, i as int, j as int));
                    }
                }
                i = i + 1;
                continue;
            }
            if j != i {
                let p = self.pos[i];
                self.info.set(j, g);
                self.pos.set(j, p);
            }
            proof {
                assert(self.info@ =~= cur.info@.update(j as int, cur.info@[i as int]));
                assert(self.pos@ =~= cur.pos@.update(j as int, cur.pos@[i as int]));
                assert(with_info_pos(cur, *self, cur.info@.update(j as int, cur.info@[i as int]), cur.pos@.update(j as int, cur.pos@[i as int])));
                assert forall|bf: hb_buffer_t|
                    #[trigger] deleted_from(filter, n as int, *self, bf, i + 1, j + 1)
                        implies deleted_from(filter, n as int, b0, bf, 0, 0) by {
                    assert(deleted_from(filter, n as int, cur, bf, i as int, j as int));
                }
            }
            j = j + 1;
            i = i + 1;
        }
        let ghost last = *self;
        self.len = j;
        proof {
            assert(deleted_from(filter, n as int, last, *self, i as int, j as int));
        }
    }

    /// Sorts records `start..end` by insertion: `goes_after(a, b)` says that `a`
    /// goes after `b`; each record moves back past the records that go
    /// after it, after the clusters it crosses merge (see `sorted_from`).
    /// The buffer has no positions yet.
    pub fn sort<F: Fn(&hb_glyph_info_t, &hb_glyph_info_t) -> bool>(&mut self, start: usize, end: usize, goes_after: F)
        requires
            old(self).wf(),
            !old(self).have_positions,
            start <= end <= old(self).len,
            forall|x: hb_glyph_info_t, y: hb_glyph_info_t| #[trigger] goes_after.requires((&x, &y)),
        ensures
            final(self).wf(),
            sorted_from(goes_after, *old(self), *final(self), start as int, end as int, start + 1),
    {
        let ghost b0 = *self;
        let mut i = start + 1;
        while i < end
            invariant
                self.wf(),
                self.len == b0.len,
                start < i,
                end <= self.len,
                forall|x: hb_glyph_info_t, y: hb_glyph_info_t| #[trigger] goes_after.requires((&x, &y)),
                forall|bf: hb_buffer_t|
                    #[trigger] sorted_from(goes_after, *self, bf, start as int, end as int, i as int)
                        ==> sorted_from(goes_after, b0, bf, start as int, end as int, start + 1),
            decreases end - i,
        {
            let ghost cur = *self;
            let mut j = i;
            loop
                invariant_except_break
                    start <= j <= i < end <= self.len,
                    *self == cur,
                    self.wf(),
                    forall|x: hb_glyph_info_t, y: hb_glyph_info_t| #[trigger] goes_after.requires((&x, &y)),
                    forall|m: int| j < m <= i ==> #[trigger] goes_after.ensures((&cur.info@[m - 1], &cur.info@[i as int]), true),
                ensures
                    start <= j <= i < end <= self.len,
                    *self == cur,
                    insertion_point(goes_after, cur.info@, start as int, i as int, j as int),
                decreases j,
            {
                if j == start {
                    break;
                }
                let c = goes_after(&self.info[j - 1], &self.info[i]);
                if !c {
                    break;
                }
                j = j - 1;
            }
            if i != j {
                self.merge_clusters(j, i + 1);
                let ghost m = *self;
                crate::buffer_moves::rotate_right_records(self, j, i);
                proof {
                    assert(is_merged(cur, m, j as int, i + 1));
                    assert(crate::buffer_moves::with_records(m, *self, crate::buffer_moves::rotated_right(m.info@, j as int, i as int)));
                    assert forall|bf: hb_buffer_t|
                        #[trigger] sorted_from(goes_after, *self, bf, start as int, end as int, i + 1)
                            implies sorted_from(goes_after, b0, bf, start as int, end as int, start + 1) by {
                        assert(sorted_from(goes_after, cur, bf, start as int, end as int, i as int));
                    }
                }
            } else {
                proof {
                    assert forall|bf: hb_buffer_t|
                        #[trigger] sorted_from(goes_after, *self, bf, start as int, end as int, i + 1)
                            implies sorted_from(goes_after, b0, bf, start as int, end as int, start + 1) by {
                        assert(sorted_from(goes_after, cur, bf, start as int, end as int, i as int));
                    }
                }
            }
            i = i + 1;
        }
        proof {
            assert(sorted_from(goes_after, *self, *self, start as int, end as int, i as int));
        }
    }

    /// Walks the groups of records, as `group` tells them apart, merging
    /// their clusters when `merge_clusters` is set and reversing them; at
    /// every record it also reverses the whole buffer (see
    /// `groups_reversed_from` for the exact steps).
    pub fn reverse_groups<F: Fn(&hb_glyph_info_t, &hb_glyph_info_t) -> bool>(&mut self, group: F, merge_clusters: bool)
        requires
            old(self).wf(),
            forall|x: hb_glyph_info_t, y: hb_glyph_info_t| #[trigger] group.requires((&x, &y)),
        ensures
            final(self).wf(),
            groups_reversed_from(group, merge_clusters, *old(self), *final(self), 0, 1, old(self).len as int),
    {
        if self.is_empty() {
            return;
        }
        let ghost b0 = *self;
        let ghost len = self.len as int;
        let mut start: usize = 0;
        let mut i: usize = 1;
        while i < self.len
            invariant
                self.wf(),
                self.len == len,
                start <= i <= len,
                1 <= i,
                forall|x: hb_glyph_info_t, y: hb_glyph_info_t| #[trigger] group.requires((&x, &y)),
                forall|bf: hb_buffer_t|
                    #[trigger] groups_reversed_from(group, merge_clusters, *self, bf, start as int, i as int, len)
                        ==> groups_reversed_from(group, merge_clusters, b0, bf, 0, 1, len),
            decreases len - i,
        {
            let ghost cur = *self;
            let ghost cur_start = start as int;
            let same = group(&self.info[i - 1], &self.info[i]);
            if !same {
                if merge_clusters {
                    self.merge_clusters(start, i);
                }
                let ghost m1 = *self;
                self.reverse_range(start, i);
                proof {
                    assert(merged_if(merge_clusters, cur, m1, start as int, i as int));
                    assert(group_closed(merge_clusters, cur, *self, start as int, i as int));
                }
                start = i;
            }
            let ghost x = *self;
            if merge_clusters {
                self.merge_clusters(start, i);
            }
            let ghost m2 = *self;
            self.reverse_range(start, i);
            let ghost y = *self;
            self.reverse();
            proof {
                assert(merged_if(merge_clusters, x, m2, start as int, i as int));
                assert(group_closed(merge_clusters, x, y, start as int, i as int));
                assert(group_step(merge_clusters, same, cur, *self, cur_start, start as int, i as int));
                assert(group_answer(group, cur.info@, i as int, same));
                assert forall|bf: hb_buffer_t|
                    #[trigger] groups_reversed_from(group, merge_clusters, *self, bf, start as int, i + 1, len)
                        implies groups_reversed_from(group, merge_clusters, b0, bf, 0, 1, len) by {
                    assert(groups_reversed_from(group, merge_clusters, cur, bf, cur_start, i as int, len));
                }
            }
            i = i + 1;
        }
        proof {
            assert(groups_reversed_from(group, merge_clusters, *self, *self, start as int, i as int, len));
        }
    }

    /// Starts a pass that produces output.
    pub fn clear_output(&mut self)
        requires
            old(self).wf(),
        ensures
            final(self).wf(),
            *final(self) == (hb_buffer_t {
                have_output: true,
                have_positions: false,
                idx: 0,
                out_len: 0,
                have_separate_output: false,
                ..*old(self)
            }),
    {
        self.have_output = true;
        self.have_positions = false;
        self.idx = 0;
        self.out_len = 0;
        self.have_separate_output = false;
    }

    /// Starts positioning: every position becomes zero.
    pub fn clear_positions(&mut self)
        requires
            old(self).wf(),
        ensures
            final(self).wf(),
            final(self).pos@.len() == old(self).pos@.len(),
            forall|k: int| 0 <= k < final(self).pos@.len() ==> #[trigger] final(self).pos@[k] == zero_pos(),
            *final(self) == (hb_buffer_t {
                have_output: false,
                have_positions: true,
                out_len: 0,
                have_separate_output: false,
                pos: final(self).pos,
                ..*old(self)
            }),
    {
        self.have_output = false;
        self.have_positions = true;
        self.out_len = 0;
        self.have_separate_output = false;
        let n = self.pos.len();
        let mut i: usize = 0;
        while i < n
            invariant
                n == self.pos@.len(),
                self.pos@.len() == old(self).pos@.len(),
                i <= n,
                forall|k: int| 0 <= k < i ==> #[trigger] self.pos@[k] == zero_pos(),
                *self == (hb_buffer_t {
                    have_output: false,
                    have_positions: true,
                    out_len: 0,
                    have_separate_output: false,
                    pos: self.pos,
                    ..*old(self)
                }),
            decreases n - i,
        {
            self.pos.set(i, GlyphPosition::new());
            i = i + 1;
        }
    }

    /// Moves the cursor past the current record without output.
    pub fn skip_glyph(&mut self)
        requires
            old(self).wf(),
            old(self).idx < old(self).len,
        ensures
            final(self).wf(),
            *final(self) == (hb_buffer_t { idx: (old(self).idx + 1) as usize, ..*old(self) }),
    {
        self.idx = self.idx + 1;
    }

    /// Writes output record `i`.
    fn set_out_info(&mut self, i: usize, g: hb_glyph_info_t)
        requires
            old(self).wf(),
            i < old(self).out_seq().len(),
        ensures
            final(self).wf(),
            final(self).out_seq() == old(self).out_seq().update(i as int, g),
            old(self).have_separate_output ==> final(self).info == old(self).info,
            !old(self).have_separate_output ==> final(self).info@ == old(self).info@.update(i as int, g),
            !old(self).have_separate_output ==> final(self).out_sep == old(self).out_sep,
            *final(self) == (hb_buffer_t { info: final(self).info, out_sep: final(self).out_sep, ..*old(self) }),
    {
        if self.have_separate_output {
            self.out_sep.set(i, g);
        } else {
            self.info.set(i, g);
        }
    }

    /// Makes room for writing `num_out` output records while consuming
    /// `num_in` input records, moving the output to its own vector once it
    /// would overtake the cursor.
    pub fn make_room_for(&mut self, num_in: usize, num_out: usize) -> (r: bool)
        requires
            old(self).wf(),
            old(self).out_len + num_out <= usize::MAX,
            old(self).idx + num_in <= usize::MAX,
            !old(self).have_separate_output && old(self).out_len + num_out > old(self).idx + num_in
                ==> old(self).have_output,
        ensures
            final(self).wf(),
            r == (old(self).out_len + num_out < old(self).len || old(self).out_len + num_out <= old(self).max_len),
            !r ==> *final(self) == (hb_buffer_t { successful: false, ..*old(self) }),
            r ==> {
                &&& final(self).output() == old(self).output()
                &&& final(self).pending() == old(self).pending()
                &&& final(self).input() == old(self).input()
                &&& final(self).out_len + num_out <= final(self).out_seq().len()
                &&& final(self).have_separate_output == (old(self).have_separate_output
                    || old(self).out_len + num_out > old(self).idx + num_in)
                &&& !final(self).have_separate_output ==> final(self).out_len + num_out <= final(self).idx + num_in
                &&& *final(self) == (hb_buffer_t {
                    info: final(self).info,
                    pos: final(self).pos,
                    out_sep: final(self).out_sep,
                    have_separate_output: final(self).have_separate_output,
                    ..*old(self)
                })
            },
    {
        let size = self.out_len + num_out;
        if !self.ensure(size) {
            return false;
        }
        proof {
            assert(self.output() =~= old(self).output());
            assert(self.pending() =~= old(self).pending());
            assert(self.input() =~= old(self).input());
        }
        if !self.have_separate_output && self.out_len + num_out > self.idx + num_in {
            let ghost before = *self;
            let n = self.out_len;
            let mut i: usize = 0;
            while i < n
                invariant
                    self.wf(),
                    !self.have_separate_output,
                    n == self.out_len,
                    i <= n,
                    self.info == before.info,
                    self.out_sep@.len() == before.out_sep@.len(),
                    forall|k: int| 0 <= k < i ==> #[trigger] self.out_sep@[k] == self.info@[k],
                    *self == (hb_buffer_t { out_sep: self.out_sep, ..before }),
                decreases n - i,
            {
                let g = self.info[i];
                self.out_sep.set(i, g);
                i = i + 1;
            }
            self.have_separate_output = true;
            proof {
                assert(self.output() =~= old(self).output());
            }
        }
        true
    }

    /// Copies the current record to the output and moves past it; with no
    /// output going on, only moves past it.
    pub fn next_glyph(&mut self)
        requires
            old(self).wf(),
            old(self).idx < old(self).len,
        ensures
            final(self).wf(),
            ({
                let room = old(self).out_len + 1 < old(self).len || old(self).out_len + 1 <= old(self).max_len;
                let copies = old(self).have_output && (old(self).have_separate_output || old(self).out_len != old(self).idx);
                if copies && !room {
                    *final(self) == (hb_buffer_t { successful: false, ..*old(self) })
                } else {
                    &&& final(self).idx == old(self).idx + 1
                    &&& final(self).len == old(self).len
                    &&& final(self).pending() == old(self).pending().drop_first()
                    &&& old(self).have_output ==> final(self).output() == old(self).output().push(old(self).info@[old(self).idx as int])
                    &&& !old(self).have_output ==> final(self).out_len == old(self).out_len
                    &&& !copies ==> final(self).info@ == old(self).info@ && final(self).out_sep@ == old(self).out_sep@
                    &&& final(self).have_separate_output == old(self).have_separate_output
                    &&& old(self).have_separate_output ==> final(self).input() == old(self).input()
                    &&& final(self).have_output == old(self).have_output
                    &&& final(self).successful == old(self).successful
                    &&& final(self).have_positions == old(self).have_positions
                    &&& final(self).cluster_level == old(self).cluster_level
                    &&& final(self).flags == old(self).flags
                    &&& final(self).max_len == old(self).max_len
                }
            }),
    {
        let ghost g = self.info@[self.idx as int];
        if self.have_output {
            if self.have_separate_output || self.out_len != self.idx {
                if !self.make_room_for(1, 1) {
                    return;
                }
                let ghost m = *self;
                let g = self.info[self.idx];
                proof {
                    assert(m.pending()[0] == old(self).pending()[0]);
                }
                let o = self.out_len;
                self.set_out_info(o, g);
                proof {
                    assert forall|k: int| 0 <= k < o implies #[trigger] self.out_seq()[k] == old(self).output()[k] by {
                        assert(m.output()[k] == m.out_seq()[k]);
                    }
                    assert(self.out_seq().subrange(0, o + 1) =~= old(self).output().push(g));
                }
            }
            self.out_len = self.out_len + 1;
        }
        self.idx = self.idx + 1;
        proof {
            assert(self.pending() =~= old(self).pending().drop_first());
            if old(self).have_output {
                assert(self.output() =~= old(self).output().push(g));
            }
        }
    }

    /// Copies the `n` records at the cursor to the output and moves past
    /// them; with no output going on, only moves past them.
    pub fn next_glyphs(&mut self, n: usize)
        requires
            old(self).wf(),
            old(self).idx + n <= old(self).len,
            old(self).out_len + n <= usize::MAX,
        ensures
            final(self).wf(),
            ({
                let room = old(self).out_len + n < old(self).len || old(self).out_len + n <= old(self).max_len;
                let copies = old(self).have_output && (old(self).have_separate_output || old(self).out_len != old(self).idx);
                if copies && !room {
                    *final(self) == (hb_buffer_t { successful: false, ..*old(self) })
                } else {
                    &&& final(self).idx == old(self).idx + n
                    &&& final(self).len == old(self).len
                    &&& final(self).pending() == old(self).pending().subrange(n as int, old(self).pending().len() as int)
                    &&& old(self).have_output ==> final(self).output() == old(self).output() + old(self).pending().subrange(0, n as int)
                    &&& !old(self).have_output ==> final(self).out_len == old(self).out_len
                    &&& final(self).have_output == old(self).have_output
                    &&& final(self).successful == old(self).successful
                    &&& final(self).have_positions == old(self).have_positions
                    &&& final(self).cluster_level == old(self).cluster_level
                    &&& final(self).flags == old(self).flags
                    &&& final(self).max_len == old(self).max_len
                }
            }),
    {
        let ghost moved = self.pending().subrange(0, n as int);
        if self.have_output {
            if self.have_separate_output || self.out_len != self.idx {
                proof {
                    assert(self.out_len <= self.info@.len());
                }
                if !self.make_room_for(n, n) {
                    return;
                }
                let ghost mid = *self;
                let o = self.out_len;
                let x = self.idx;
                let mut i: usize = 0;
                while i < n
                    invariant
                        self.wf(),
                        i <= n,
                        o == self.out_len,
                        x == self.idx,
                        x + n <= self.len,
                        o + n <= self.out_seq().len(),
                        !self.have_separate_output ==> o < x,
                        self.have_separate_output == mid.have_separate_output,
                        self.info@.len() == mid.info@.len(),
                        forall|k: int| x + i <= k < self.len ==> #[trigger] self.info@[k] == mid.info@[k],
                        self.out_seq().len() == mid.out_seq().len(),
                        forall|k: int| 0 <= k < o ==> #[trigger] self.out_seq()[k] == mid.out_seq()[k],
                        forall|k: int| 0 <= k < i ==> #[trigger] self.out_seq()[o + k] == mid.info@[x + k],
                        *self == (hb_buffer_t { info: self.info, out_sep: self.out_sep, ..mid }),
                    decreases n - i,
                {
                    let g = self.info[x + i];
                    self.set_out_info(o + i, g);
                    i = i + 1;
                }
                proof {
                    assert forall|k: int| 0 <= k < o + n implies #[trigger] self.out_seq()[k] == (old(self).output() + moved)[k] by {
                        if k < o {
                            assert(mid.output()[k] == mid.out_seq()[k]);
                        } else {
                            assert(self.out_seq()[o + (k - o)] == mid.info@[x + (k - o)]);
                        }
                    }
                    assert(self.out_seq().subrange(0, o + n) =~= old(self).output() + moved);
                }
            }
            self.out_len = self.out_len + n;
        }
        self.idx = self.idx + n;
        proof {
            assert(self.pending() =~= old(self).pending().subrange(n as int, old(self).pending().len() as int));
            if old(self).have_output {
                assert(self.output() =~= old(self).output() + moved);
            }
        }
    }

    /// The smallest cluster among `info[start..end]`, or `cluster` (by
    /// default `u32::MAX`) if that is smaller.
    pub fn _infos_find_min_cluster(info: &Vec<hb_glyph_info_t>, start: usize, end: usize, cluster: Option<u32>) -> (r: u32)
        requires
            start <= end <= info@.len(),
        ensures
            r == min_cluster(info@, start as int, end as int, match cluster { Some(c) => c, None => u32::MAX }),
    {
        let mut c = match cluster {
            Some(c) => c,
            None => u32::MAX,
        };
        let ghost init = c;
        let mut i = start;
        while i < end
            invariant
                start <= i <= end,
                end <= info@.len(),
                c == min_cluster(info@, start as int, i as int, init),
            decreases end - i,
        {
            if info[i].cluster < c {
                c = info[i].cluster;
            }
            i = i + 1;
        }
        c
    }

    /// Adds `mask` to the records of `info[start..end]` whose cluster is not
    /// `cluster`; tells whether there was any.
    pub fn _infos_set_glyph_flags(info: &mut Vec<hb_glyph_info_t>, start: usize, end: usize, cluster: u32, mask: u32) -> (r: bool)
        requires
            end <= old(info)@.len(),
        ensures
            final(info)@ == flagged_interior(old(info)@, start as int, end as int, cluster, mask),
            r == exists|k: int| start <= k < end && #[trigger] old(info)@[k].cluster != cluster,
    {
        let mut any = false;
        let mut i = start;
        while i < end
            invariant
                start <= i,
                i <= end || i == start,
                end <= info@.len(),
                info@.len() == old(info)@.len(),
                forall|k: int| 0 <= k < info@.len() ==> #[trigger] info@[k] == (
                    if start <= k < i && old(info)@[k].cluster != cluster {
                        hb_glyph_info_t { mask: old(info)@[k].mask | mask, ..old(info)@[k] }
                    } else {
                        old(info)@[k]
                    }),
                any == exists|k: int| start <= k < i && #[trigger] old(info)@[k].cluster != cluster,
            decreases end - i,
        {
            let mut g = info[i];
            if g.cluster != cluster {
                g.mask = g.mask | mask;
                info.set(i, g);
                any = true;
            }
            proof {
                if !any {
                    assert(forall|k: int| start <= k < i + 1 ==> #[trigger] old(info)@[k].cluster == cluster);
                }
            }
            i = i + 1;
        }
        proof {
            if end <= start {
                assert(!exists|k: int| start <= k < end && #[trigger] old(info)@[k].cluster != cluster);
            }
        }
        assert(info@ =~= flagged_interior(old(info)@, start as int, end as int, cluster, mask));
        any
    }

    /// Adds `mask` to the records of `v[start..end]`.
    fn flag_range(v: &mut Vec<hb_glyph_info_t>, start: usize, end: usize, mask: u32)
        requires
            end <= old(v)@.len(),
        ensures
            final(v)@ == flagged(old(v)@, start as int, end as int, mask),
    {
        let mut i = start;
        while i < end
            invariant
                start <= i,
                i <= end || i == start,
                end <= v@.len(),
                v@.len() == old(v)@.len(),
                forall|k: int| 0 <= k < v@.len() ==> #[trigger] v@[k] == (
                    if start <= k < i { hb_glyph_info_t { mask: old(v)@[k].mask | mask, ..old(v)@[k] } } else { old(v)@[k] }),
            decreases end - i,
        {
            let mut g = v[i];
            g.mask = g.mask | mask;
            v.set(i, g);
            i = i + 1;
        }
        assert(v@ =~= flagged(old(v)@, start as int, end as int, mask));
    }

    /// Adds the glyph flags `mask` to the records between `start` (default
    /// 0) and `end` (default, and at most, the number of records in use).
    /// When `from_out_buffer` is set and output is going on, the range starts
    /// at `start` in the output and ends at `end` in the input. When
    /// `interior` is set, the records of the range's smallest cluster are
    /// left out.
    pub fn _set_glyph_flags(
        &mut self,
        mask: u32,
        start: Option<usize>,
        end: Option<usize>,
        interior: Option<bool>,
        from_out_buffer: Option<bool>,
    )
        requires
            old(self).wf(),
            ({
                let st = match start { Some(v) => v, None => 0 };
                let en0 = match end { Some(v) => v, None => old(self).len };
                let en = if en0 < old(self).len { en0 } else { old(self).len };
                let interior = match interior { Some(v) => v, None => false };
                let from_out = match from_out_buffer { Some(v) => v, None => false };
                &&& interior && (!from_out || !old(self).have_output) ==> st <= en
                &&& from_out && old(self).have_output ==> st <= old(self).out_len && old(self).idx <= en
            }),
        ensures
            final(self).wf(),
            glyph_flags_set(*old(self), *final(self), mask, start, end, interior, from_out_buffer),
    {
        let start = match start { Some(v) => v, None => 0 };
        let end0 = match end { Some(v) => v, None => self.len };
        let end = if end0 < self.len { end0 } else { self.len };
        let interior = match interior { Some(v) => v, None => false };
        let from_out_buffer = match from_out_buffer { Some(v) => v, None => false };
        if interior && !from_out_buffer && end - start < 2 {
            return;
        }
        self.scratch_flags = self.scratch_flags | SCRATCH_HAS_GLYPH_FLAGS;
        if !from_out_buffer || !self.have_output {
            if !interior {
                Self::flag_range(&mut self.info, start, end, mask);
            } else {
                let cluster = Self::_infos_find_min_cluster(&self.info, start, end, None);
                if Self::_infos_set_glyph_flags(&mut self.info, start, end, cluster, mask) {
                    self.scratch_flags = self.scratch_flags | SCRATCH_HAS_GLYPH_FLAGS;
                }
                proof { lemma_or_idem(old(self).scratch_flags, SCRATCH_HAS_GLYPH_FLAGS); }
            }
        } else {
            let ol = self.out_len;
            let x = self.idx;
            if !interior {
                if self.have_separate_output {
                    Self::flag_range(&mut self.out_sep, start, ol, mask);
                } else {
                    Self::flag_range(&mut self.info, start, ol, mask);
                }
                Self::flag_range(&mut self.info, x, end, mask);
            } else {
                let c0 = Self::_infos_find_min_cluster(&self.info, x, end, None);
                let cluster = if self.have_separate_output {
                    Self::_infos_find_min_cluster(&self.out_sep, start, ol, Some(c0))
                } else {
                    Self::_infos_find_min_cluster(&self.info, start, ol, Some(c0))
                };
                let first = if self.have_separate_output {
                    Self::_infos_set_glyph_flags(&mut self.out_sep, start, ol, cluster, mask)
                } else {
                    Self::_infos_set_glyph_flags(&mut self.info, start, ol, cluster, mask)
                };
                let second = Self::_infos_set_glyph_flags(&mut self.info, x, end, cluster, mask);
                if first || second {
                    self.scratch_flags = self.scratch_flags | SCRATCH_HAS_GLYPH_FLAGS;
                }
                proof { lemma_or_idem(old(self).scratch_flags, SCRATCH_HAS_GLYPH_FLAGS); }
            }
        }
    }

    /// Marks the records between `start` and `end`, but those of the
    /// range's smallest cluster, unsafe to break and to concatenate.
    pub fn unsafe_to_break(&mut self, start: Option<usize>, end: Option<usize>)
        requires
            old(self).wf(),
            ({
                let st = match start { Some(v) => v, None => 0 };
                let en0 = match end { Some(v) => v, None => old(self).len };
                let en = if en0 < old(self).len { en0 } else { old(self).len };
                st <= en
            }),
        ensures
            final(self).wf(),
            ({
                let st = match start { Some(v) => v as int, None => 0 };
                let en0 = match end { Some(v) => v as int, None => old(self).len as int };
                let en = if en0 < old(self).len { en0 } else { old(self).len as int };
                if en - st < 2 {
                    *final(self) == *old(self)
                } else {
                    &&& final(self).info@ == flagged_interior(old(self).info@, st, en,
                        min_cluster(old(self).info@, st, en, u32::MAX), UNSAFE_TO_BREAK | UNSAFE_TO_CONCAT)
                    &&& *final(self) == (hb_buffer_t { info: final(self).info,
                        scratch_flags: old(self).scratch_flags | SCRATCH_HAS_GLYPH_FLAGS, ..*old(self) })
                }
            }),
            break_implies_concat(old(self).info@) ==> break_implies_concat(final(self).info@),
    {
        let ghost st = match start { Some(v) => v as int, None => 0 };
        let ghost en0 = match end { Some(v) => v as int, None => old(self).len as int };
        let ghost en = if en0 < old(self).len { en0 } else { old(self).len as int };
        proof {
            assert((UNSAFE_TO_BREAK | UNSAFE_TO_CONCAT) & UNSAFE_TO_BREAK != 0 ==> (UNSAFE_TO_BREAK | UNSAFE_TO_CONCAT) & UNSAFE_TO_CONCAT != 0) by (bit_vector);
            if break_implies_concat(old(self).info@) {
                lemma_glyph_flags_keep_break_implies_concat(old(self).info@, st, en,
                    min_cluster(old(self).info@, st, en, u32::MAX), UNSAFE_TO_BREAK | UNSAFE_TO_CONCAT);
            }
        }
        self._set_glyph_flags(UNSAFE_TO_BREAK | UNSAFE_TO_CONCAT, start, end, Some(true), None);
    }

    /// With the buffer flag asking for it, marks the records between
    /// `start` and `end`, but those of the range's smallest cluster, unsafe
    /// to concatenate.
    pub fn unsafe_to_concat(&mut self, start: Option<usize>, end: Option<usize>)
        requires
            old(self).wf(),
            ({
                let st = match start { Some(v) => v, None => 0 };
                let en0 = match end { Some(v) => v, None => old(self).len };
                let en = if en0 < old(self).len { en0 } else { old(self).len };
                st <= en
            }),
        ensures
            final(self).wf(),
            ({
                let st = match start { Some(v) => v as int, None => 0 };
                let en0 = match end { Some(v) => v as int, None => old(self).len as int };
                let en = if en0 < old(self).len { en0 } else { old(self).len as int };
                if old(self).flags & BUFFER_FLAG_PRODUCE_UNSAFE_TO_CONCAT == 0 || en - st < 2 {
                    *final(self) == *old(self)
                } else {
                    &&& final(self).info@ == flagged_interior(old(self).info@, st, en,
                        min_cluster(old(self).info@, st, en, u32::MAX), UNSAFE_TO_CONCAT)
                    &&& *final(self) == (hb_buffer_t { info: final(self).info,
                        scratch_flags: old(self).scratch_flags | SCRATCH_HAS_GLYPH_FLAGS, ..*old(self) })
                }
            }),
    {
        if self.flags & BUFFER_FLAG_PRODUCE_UNSAFE_TO_CONCAT == 0 {
            return;
        }
        self._set_glyph_flags(UNSAFE_TO_CONCAT, start, end, Some(true), None);
    }

    /// Marks the records from output position `start` to input position
    /// `end` unsafe to break and to concatenate, but those of the smallest
    /// cluster among them (see `glyph_flags_set`). Unsafe-to-break flags are
    /// always produced, whatever the buffer's flags say.
    pub fn unsafe_to_break_from_outbuffer(&mut self, start: Option<usize>, end: Option<usize>)
        requires
            old(self).wf(),
            ({
                let st = match start { Some(v) => v, None => 0 };
                let en0 = match end { Some(v) => v, None => old(self).len };
                let en = if en0 < old(self).len { en0 } else { old(self).len };
                &&& old(self).have_output ==> st <= old(self).out_len && old(self).idx <= en
                &&& !old(self).have_output ==> st <= en
            }),
        ensures
            final(self).wf(),
            glyph_flags_set(*old(self), *final(self), UNSAFE_TO_BREAK | UNSAFE_TO_CONCAT, start, end, Some(true), Some(true)),
    {
        self._set_glyph_flags(UNSAFE_TO_BREAK | UNSAFE_TO_CONCAT, start, end, Some(true), Some(true));
    }

    /// Marks every record from output position `start` to input position
    /// `end` unsafe to concatenate.
    pub fn unsafe_to_concat_from_outbuffer(&mut self, start: Option<usize>, end: Option<usize>)
        requires
            old(self).wf(),
            ({
                let st = match start { Some(v) => v, None => 0 };
                let en0 = match end { Some(v) => v, None => old(self).len };
                let en = if en0 < old(self).len { en0 } else { old(self).len };
                old(self).have_output ==> st <= old(self).out_len && old(self).idx <= en
            }),
        ensures
            final(self).wf(),
            glyph_flags_set(*old(self), *final(self), UNSAFE_TO_CONCAT, start, end, Some(false), Some(true)),
    {
        self._set_glyph_flags(UNSAFE_TO_CONCAT, start, end, Some(false), Some(true));
    }

    /// Gives the records from `start` up to `end` one cluster, the
    /// smallest among them, extending the range forward over records that
    /// share the cluster of the record before them and, when the range
    /// starts at the cursor, backward into the output over the records of
    /// the range's first cluster. At the `Characters` cluster level clusters
    /// never merge; the range is marked unsafe to break instead.
    pub fn merge_clusters(&mut self, start: usize, end: usize)
        requires
            old(self).wf(),
            start <= end <= old(self).len,
        ensures
            final(self).wf(),
            end - start < 2 ==> *final(self) == *old(self),
            end - start >= 2 ==> is_merged(*old(self), *final(self), start as int, end as int),
    {
        if end - start < 2 {
            return;
        }
        self.merge_clusters_impl(start, end);
    }

    fn merge_clusters_impl(&mut self, start: usize, end: usize)
        requires
            old(self).wf(),
            start + 2 <= end <= old(self).len,
        ensures
            final(self).wf(),
            is_merged(*old(self), *final(self), start as int, end as int),
    {
        if self.cluster_level == HB_BUFFER_CLUSTER_LEVEL_CHARACTERS {
            self.unsafe_to_break(Some(start), Some(end));
            return;
        }
        let cluster = Self::_infos_find_min_cluster(&self.info, start, end, None);
        let ghost e_init = end as int;
        let mut end = end;
        while end < self.len && self.info[end - 1].cluster == self.info[end].cluster
            invariant
                self.wf(),
                *self == *old(self),
                start + 2 <= end <= self.len,
                run_end(self.info@, end as int, self.len as int) == run_end(self.info@, e_init, self.len as int),
            decreases self.len - end,
        {
            end = end + 1;
        }
        let ghost e0 = end as int;
        assert(e0 == merge_end(*old(self), e_init));
        if self.idx == start {
            let c0 = self.info[start].cluster;
            let mut i = self.out_len;
            while i != 0 && self.out_cluster(i - 1) == c0
                invariant
                    self.wf(),
                    old(self).wf(),
                    start + 2 <= old(self).len,
                    self.idx == start,
                    i <= old(self).out_len,
                    c0 == old(self).info@[start as int].cluster,
                    run_start_back(old(self).out_seq(), old(self).out_len as int, c0) == run_start_back(old(self).out_seq(), i as int, c0),
                    self.out_seq() == clustered(old(self).out_seq(), i as int, old(self).out_len as int, cluster, 0),
                    self.have_separate_output ==> self.info == old(self).info,
                    !self.have_separate_output ==> self.out_sep == old(self).out_sep,
                    *self == (hb_buffer_t { info: self.info, out_sep: self.out_sep, ..*old(self) }),
                decreases i,
            {
                let mut g = self.out_get(i - 1);
                Self::set_cluster(&mut g, cluster, 0);
                self.set_out_info(i - 1, g);
                i = i - 1;
                proof {
                    assert(self.out_seq() =~= clustered(old(self).out_seq(), i as int, old(self).out_len as int, cluster, 0));
                }
            }
            proof {
                assert(i == 0 || old(self).out_seq()[i - 1].cluster != c0);
                assert(run_start_back(old(self).out_seq(), i as int, c0) == i);
                assert(i == merge_out_start(*old(self), start as int));
                if self.have_separate_output {
                    assert(self.out_sep@ == merged_out_sep(*old(self), start as int, e_init));
                } else {
                    assert(self.info@ == clustered(old(self).info@, merge_out_start(*old(self), start as int), old(self).out_len as int, cluster, 0));
                }
            }
        } else {
            proof {
                assert(clustered(old(self).info@, old(self).out_len as int, old(self).out_len as int, cluster, 0) =~= old(self).info@);
                assert(clustered(old(self).out_sep@, old(self).out_len as int, old(self).out_len as int, cluster, 0) =~= old(self).out_sep@);
            }
        }
        let ghost after_out = *self;
        let ghost mid = self.info@;
        let mut i = start;
        while i < end
            invariant
                self.wf(),
                start <= i <= end,
                end <= self.len,
                self.info@.len() == mid.len(),
                forall|k: int| 0 <= k < mid.len() ==> #[trigger] self.info@[k] == (
                    if start <= k < i { with_cluster(mid[k], cluster, 0) } else { mid[k] }),
                *self == (hb_buffer_t { info: self.info, ..after_out }),
            decreases end - i,
        {
            let mut g = self.info[i];
            Self::set_cluster(&mut g, cluster, 0);
            self.info.set(i, g);
            i = i + 1;
        }
        assert(self.info@ =~= clustered(mid, start as int, end as int, cluster, 0));
    }

    /// Replaces the current record by a copy holding glyph `glyph_index`,
    /// written to the output, and moves past it.
    pub fn replace_glyph(&mut self, glyph_index: u32)
        requires
            old(self).wf(),
            old(self).idx < old(self).len,
        ensures
            final(self).wf(),
            ({
                let room = old(self).out_len + 1 < old(self).len || old(self).out_len + 1 <= old(self).max_len;
                let copies = old(self).have_separate_output || old(self).out_len != old(self).idx;
                if copies && !room {
                    *final(self) == (hb_buffer_t { successful: false, ..*old(self) })
                } else {
                    &&& final(self).idx == old(self).idx + 1
                    &&& final(self).out_len == old(self).out_len + 1
                    &&& final(self).len == old(self).len
                    &&& final(self).pending() == old(self).pending().drop_first()
                    &&& final(self).output() == old(self).output().push(hb_glyph_info_t {
                        glyph_id: glyph_index, ..old(self).info@[old(self).idx as int] })
                    &&& final(self).have_output == old(self).have_output
                    &&& final(self).successful == old(self).successful
                    &&& final(self).have_positions == old(self).have_positions
                    &&& final(self).cluster_level == old(self).cluster_level
                    &&& final(self).flags == old(self).flags
                    &&& final(self).max_len == old(self).max_len
                }
            }),
    {
        let ghost g0 = self.info@[self.idx as int];
        let mut g = self.info[self.idx];
        if self.have_separate_output || self.out_len != self.idx {
            if !self.make_room_for(1, 1) {
                return;
            }
            proof { assert(self.pending()[0] == old(self).pending()[0]); }
            g = self.info[self.idx];
        }
        g.glyph_id = glyph_index;
        let ghost m = *self;
        let o = self.out_len;
        proof {
            assert(o < self.out_seq().len());
        }
        self.set_out_info(o, g);
        self.idx = self.idx + 1;
        self.out_len = self.out_len + 1;
        proof {
            assert forall|k: int| 0 <= k < o implies #[trigger] self.out_seq()[k] == old(self).output()[k] by {
                assert(m.output()[k] == m.out_seq()[k]);
            }
            assert(self.output() =~= old(self).output().push(g));
            assert(self.pending() =~= old(self).pending().drop_first());
        }
    }

    /// Copies the current record to the output without moving the cursor.
    pub fn copy_glyph(&mut self)
        requires
            old(self).wf(),
            old(self).have_output,
            old(self).idx < old(self).len,
        ensures
            final(self).wf(),
            ({
                let room = old(self).out_len + 1 < old(self).len || old(self).out_len + 1 <= old(self).max_len;
                if !room {
                    *final(self) == (hb_buffer_t { successful: false, ..*old(self) })
                } else {
                    &&& final(self).idx == old(self).idx
                    &&& final(self).out_len == old(self).out_len + 1
                    &&& final(self).len == old(self).len
                    &&& final(self).pending() == old(self).pending()
                    &&& final(self).output() == old(self).output().push(old(self).info@[old(self).idx as int])
                    &&& final(self).have_output == old(self).have_output
                    &&& final(self).successful == old(self).successful
                    &&& final(self).have_positions == old(self).have_positions
                    &&& final(self).cluster_level == old(self).cluster_level
                    &&& final(self).flags == old(self).flags
                    &&& final(self).max_len == old(self).max_len
                }
            }),
    {
        if !self.make_room_for(0, 1) {
            return;
        }
        proof { assert(self.pending()[0] == old(self).pending()[0]); }
        let g = self.info[self.idx];
        self.push_output(g);
    }

    /// Appends `g` to the output, where there is room for it.
    fn push_output(&mut self, g: hb_glyph_info_t)
        requires
            old(self).wf(),
            old(self).out_len + 1 <= old(self).out_seq().len(),
            !old(self).have_separate_output ==> old(self).out_len < old(self).idx,
        ensures
            final(self).wf(),
            final(self).idx == old(self).idx,
            final(self).out_len == old(self).out_len + 1,
            final(self).pending() == old(self).pending(),
            final(self).output() == old(self).output().push(g),
            old(self).have_separate_output ==> final(self).info == old(self).info,
            *final(self) == (hb_buffer_t { info: final(self).info, out_sep: final(self).out_sep,
                out_len: final(self).out_len, ..*old(self) }),
    {
        let o = self.out_len;
        self.set_out_info(o, g);
        self.out_len = o + 1;
        proof {
            assert(self.output() =~= old(self).output().push(g));
            assert(self.pending() =~= old(self).pending());
        }
    }

    /// Appends a copy of the current record (at the end of the input, of the
    /// last output record) holding glyph `glyph_index` to the output,
    /// without moving the cursor. Does nothing when there is neither.
    pub fn output_glyph(&mut self, glyph_index: u32)
        requires
            old(self).wf(),
            old(self).have_output,
        ensures
            final(self).wf(),
            ({
                let room = old(self).out_len + 1 < old(self).len || old(self).out_len + 1 <= old(self).max_len;
                if !room {
                    *final(self) == (hb_buffer_t { successful: false, ..*old(self) })
                } else if old(self).idx == old(self).len && old(self).out_len == 0 {
                    &&& final(self).output() == old(self).output()
                    &&& final(self).pending() == old(self).pending()
                    &&& final(self).idx == old(self).idx
                    &&& final(self).out_len == old(self).out_len
                    &&& final(self).len == old(self).len
                    &&& final(self).have_output == old(self).have_output
                    &&& final(self).successful == old(self).successful
                } else {
                    let src = if old(self).idx < old(self).len {
                        old(self).info@[old(self).idx as int]
                    } else {
                        old(self).output().last()
                    };
                    &&& final(self).idx == old(self).idx
                    &&& final(self).out_len == old(self).out_len + 1
                    &&& final(self).len == old(self).len
                    &&& final(self).pending() == old(self).pending()
                    &&& final(self).output() == old(self).output().push(hb_glyph_info_t { glyph_id: glyph_index, ..src })
                    &&& final(self).have_output == old(self).have_output
                    &&& final(self).successful == old(self).successful
                    &&& final(self).have_positions == old(self).have_positions
                    &&& final(self).cluster_level == old(self).cluster_level
                    &&& final(self).flags == old(self).flags
                    &&& final(self).max_len == old(self).max_len
                }
            }),
    {
        if !self.make_room_for(0, 1) {
            return;
        }
        if self.idx == self.len && self.out_len == 0 {
            return;
        }
        let mut g = if self.idx < self.len {
            proof { assert(self.pending()[0] == old(self).pending()[0]); }
            self.info[self.idx]
        } else {
            proof { assert(self.output()[self.out_len - 1] == old(self).output()[old(self).out_len - 1]); }
            self.out_get(self.out_len - 1)
        };
        g.glyph_id = glyph_index;
        self.push_output(g);
    }

    /// Appends record `glyph_info` to the output.
    pub fn output_info(&mut self, glyph_info: hb_glyph_info_t)
        requires
            old(self).wf(),
            old(self).have_output,
        ensures
            final(self).wf(),
            ({
                let room = old(self).out_len + 1 < old(self).len || old(self).out_len + 1 <= old(self).max_len;
                if !room {
                    *final(self) == (hb_buffer_t { successful: false, ..*old(self) })
                } else {
                    &&& final(self).idx == old(self).idx
                    &&& final(self).out_len == old(self).out_len + 1
                    &&& final(self).len == old(self).len
                    &&& final(self).pending() == old(self).pending()
                    &&& final(self).output() == old(self).output().push(glyph_info)
                    &&& final(self).have_separate_output == (old(self).have_separate_output || old(self).out_len + 1 > old(self).idx)
                    &&& final(self).have_separate_output ==> final(self).input() == old(self).input()
                    &&& final(self).have_output == old(self).have_output
                    &&& final(self).successful == old(self).successful
                    &&& final(self).have_positions == old(self).have_positions
                    &&& final(self).cluster_level == old(self).cluster_level
                    &&& final(self).flags == old(self).flags
                    &&& final(self).max_len == old(self).max_len
                }
            }),
    {
        if !self.make_room_for(0, 1) {
            return;
        }
        self.push_output(glyph_info);
    }

    /// Makes the output the new input: copies the records not yet consumed
    /// to the output, then the output becomes the buffer's records. When the
    /// buffer is already unsuccessful, the pass is only dropped.
    pub fn sync(&mut self)
        requires
            old(self).wf(),
            old(self).have_output,
            old(self).out_len + (old(self).len - old(self).idx) <= usize::MAX,
        ensures
            final(self).wf(),
            !final(self).have_output,
            final(self).out_len == 0,
            final(self).idx == 0,
            !final(self).have_separate_output,
            !old(self).successful ==> final(self).len == old(self).len && final(self).info == old(self).info
                && !final(self).successful,
            old(self).successful ==> ({
                let n = (old(self).len - old(self).idx) as int;
                let room = old(self).out_len + n < old(self).len || old(self).out_len + n <= old(self).max_len;
                let copies = old(self).have_separate_output || old(self).out_len != old(self).idx;
                if copies && !room {
                    &&& !final(self).successful
                    &&& final(self).input() == old(self).output()
                } else {
                    &&& final(self).successful
                    &&& final(self).input() == old(self).output() + old(self).pending()
                }
            }),
            final(self).cluster_level == old(self).cluster_level,
            final(self).flags == old(self).flags,
            final(self).max_len == old(self).max_len,
            final(self).have_positions == old(self).have_positions,
    {
        if !self.successful {
            self.have_output = false;
            self.have_separate_output = false;
            self.out_len = 0;
            self.idx = 0;
            return;
        }
        let n = self.len - self.idx;
        self.next_glyphs(n);
        let ghost m = *self;
        if self.have_separate_output {
            std::mem::swap(&mut self.info, &mut self.out_sep);
        }
        self.len = self.out_len;
        self.have_output = false;
        self.have_separate_output = false;
        self.out_len = 0;
        self.idx = 0;
        proof {
            assert(self.input() =~= m.output());
            let room = old(self).out_len + n < old(self).len || old(self).out_len + n <= old(self).max_len;
            let copies = old(self).have_separate_output || old(self).out_len != old(self).idx;
            if !(copies && !room) {
                assert(old(self).pending().subrange(0, n as int) =~= old(self).pending());
            }
        }
    }

    /// Gives the output's last run of records of cluster `oc` the cluster
    /// `c` and, where that changes the cluster, the glyph flags of `mask`.
    fn recluster_output_tail(&mut self, oc: u32, c: u32, mask: u32)
        requires
            old(self).wf(),
        ensures
            final(self).wf(),
            final(self).output() == clustered(old(self).output(), run_start_back(old(self).output(),
                old(self).out_len as int, oc), old(self).out_len as int, c, mask),
            final(self).pending() == old(self).pending(),
            *final(self) == (hb_buffer_t { info: final(self).info, out_sep: final(self).out_sep, ..*old(self) }),
    {
        let ghost ol = old(self).out_len as int;
        let mut i = self.out_len;
        proof { lemma_run_start_back_prefix(old(self).out_seq(), ol, ol, oc); }
        while i != 0 && self.out_cluster(i - 1) == oc
            invariant
                self.wf(),
                old(self).wf(),
                i <= old(self).out_len,
                ol == old(self).out_len as int,
                run_start_back(old(self).out_seq(), ol, oc) == run_start_back(old(self).out_seq(), i as int, oc),
                self.out_seq() == clustered(old(self).out_seq(), i as int, ol, c, mask),
                self.pending() == old(self).pending(),
                *self == (hb_buffer_t { info: self.info, out_sep: self.out_sep, ..*old(self) }),
            decreases i,
        {
            let mut g = self.out_get(i - 1);
            proof {
                assert(old(self).out_len <= old(self).out_seq().len());
                assert(g == old(self).out_seq()[i - 1]);
            }
            Self::set_cluster(&mut g, c, mask);
            let ghost before = *self;
            self.set_out_info(i - 1, g);
            proof {
                if !self.have_separate_output {
                    assert(self.pending() =~= before.pending());
                }
            }
            i = i - 1;
            proof {
                assert(self.out_seq() == before.out_seq().update(i as int, g));
                assert(g == with_cluster(old(self).out_seq()[i as int], c, mask));
                assert forall|k: int| 0 <= k < self.out_seq().len() implies #[trigger] self.out_seq()[k] == clustered(old(self).out_seq(), i as int, ol, c, mask)[k] by {
                    assert(before.out_seq() == clustered(old(self).out_seq(), i + 1, ol, c, mask));
                    assert(before.out_seq().len() == old(self).out_seq().len());
                    if k != i {
                        assert(self.out_seq()[k] == before.out_seq()[k]);
                        assert(before.out_seq()[k] == clustered(old(self).out_seq(), i + 1, ol, c, mask)[k]);
                    } else {
                        assert(self.out_seq()[k] == g);
                        assert(k < ol);
                        assert(clustered(old(self).out_seq(), i as int, ol, c, mask)[k] == with_cluster(old(self).out_seq()[k], c, mask));
                    }
                }
                assert(self.out_seq() =~= clustered(old(self).out_seq(), i as int, ol, c, mask));
            }
        }
        proof {
            assert(run_start_back(old(self).out_seq(), i as int, oc) == i);
            assert(self.output() =~= clustered(old(self).output(), i as int, ol, c, mask));
        }
    }

    /// Deletes the current record: moves past it without output, first
    /// handing its cluster on. When the next record shares the cluster,
    /// nothing is handed on; otherwise, when there is output and the
    /// record's cluster is smaller than that of the last output record, the
    /// last output cluster takes it (with the record's glyph flags); with
    /// no output, the record's cluster merges with the next record's.
    pub fn delete_glyph(&mut self)
        requires
            old(self).wf(),
            old(self).idx < old(self).len,
        ensures
            final(self).wf(),
            final(self).idx == old(self).idx + 1,
            final(self).len == old(self).len,
            final(self).out_len == old(self).out_len,
            ({
                let x = old(self).idx as int;
                let g = old(self).info@[x];
                let out = old(self).output();
                let pend = old(self).pending();
                if x + 1 < old(self).len && g.cluster == old(self).info@[x + 1].cluster {
                    &&& final(self).output() == out
                    &&& final(self).pending() == pend.drop_first()
                    &&& final(self).scratch_flags == old(self).scratch_flags
                } else if old(self).out_len != 0 {
                    &&& final(self).pending() == pend.drop_first()
                    &&& final(self).scratch_flags == old(self).scratch_flags
                    &&& g.cluster < out.last().cluster ==> final(self).output() == clustered(out,
                        run_start_back(out, out.len() as int, out.last().cluster), out.len() as int, g.cluster, g.mask)
                    &&& g.cluster >= out.last().cluster ==> final(self).output() == out
                } else if x + 1 < old(self).len {
                    &&& final(self).output() == cursor_merged_output(out, pend, 2, old(self).cluster_level)
                    &&& final(self).pending() == cursor_merged_pending(pend, 2, old(self).cluster_level).drop_first()
                    &&& final(self).scratch_flags == merged_scratch(*old(self))
                } else {
                    &&& final(self).output() == out
                    &&& final(self).pending() == pend.drop_first()
                    &&& final(self).scratch_flags == old(self).scratch_flags
                }
            }),
            final(self).have_output == old(self).have_output,
            final(self).have_separate_output == old(self).have_separate_output,
            final(self).successful == old(self).successful,
            final(self).cluster_level == old(self).cluster_level,
            final(self).flags == old(self).flags,
            final(self).max_len == old(self).max_len,
            final(self).have_positions == old(self).have_positions,
            final(self).pos == old(self).pos,
    {
        let cluster = self.info[self.idx].cluster;
        if self.idx + 1 < self.len && cluster == self.info[self.idx + 1].cluster {
            self.skip_glyph();
            proof { assert(self.pending() =~= old(self).pending().drop_first()); }
            return;
        }
        if self.out_len != 0 {
            let last = self.out_get(self.out_len - 1);
            proof { assert(last == old(self).output().last()); }
            if cluster < last.cluster {
                let mask = self.info[self.idx].mask;
                self.recluster_output_tail(last.cluster, cluster, mask);
            }
            proof { assert(self.pending()[0] == old(self).pending()[0]); }
            self.skip_glyph();
            proof { assert(self.pending() =~= old(self).pending().drop_first()); }
            return;
        }
        if self.idx + 1 < self.len {
            let x = self.idx;
            let ghost before = *self;
            self.merge_clusters(x, x + 2);
            proof { lemma_merge_at_cursor(before, *self, 2); }
            let ghost m = *self;
            self.skip_glyph();
            proof { assert(self.pending() =~= m.pending().drop_first()); }
            return;
        }
        self.skip_glyph();
        proof { assert(self.pending() =~= old(self).pending().drop_first()); }
    }

    /// Replaces the `num_in` records at the cursor by `num_out` copies of
    /// the first of them holding the glyphs of `glyph_data`, written to the
    /// output; the replaced records' clusters merge first.
    pub fn replace_glyphs(&mut self, num_in: usize, num_out: usize, glyph_data: &[u32])
        requires
            old(self).wf(),
            old(self).idx < old(self).len,
            old(self).idx + num_in <= old(self).len,
            num_out <= glyph_data@.len(),
            old(self).out_len + num_out <= usize::MAX,
            !old(self).have_separate_output && old(self).out_len + num_out > old(self).idx + num_in
                ==> old(self).have_output,
        ensures
            final(self).wf(),
            ({
                let room = old(self).out_len + num_out < old(self).len || old(self).out_len + num_out <= old(self).max_len;
                if !room {
                    *final(self) == (hb_buffer_t { successful: false, ..*old(self) })
                } else {
                    let out1 = cursor_merged_output(old(self).output(), old(self).pending(), num_in as int, old(self).cluster_level);
                    let pend1 = cursor_merged_pending(old(self).pending(), num_in as int, old(self).cluster_level);
                    &&& final(self).output() == out1 + Seq::new(num_out as nat, |k: int| hb_glyph_info_t { glyph_id: glyph_data@[k], ..pend1[0] })
                    &&& final(self).pending() == pend1.subrange(num_in as int, pend1.len() as int)
                    &&& final(self).idx == old(self).idx + num_in
                    &&& final(self).out_len == old(self).out_len + num_out
                    &&& final(self).len == old(self).len
                    &&& final(self).scratch_flags == if num_in >= 2 { merged_scratch(*old(self)) } else { old(self).scratch_flags }
                    &&& final(self).have_output == old(self).have_output
                    &&& final(self).successful == old(self).successful
                    &&& final(self).have_positions == old(self).have_positions
                    &&& final(self).cluster_level == old(self).cluster_level
                    &&& final(self).flags == old(self).flags
                    &&& final(self).max_len == old(self).max_len
                }
            }),
    {
        if !self.make_room_for(num_in, num_out) {
            return;
        }
        let x = self.idx;
        let ghost before = *self;
        self.merge_clusters(x, x + num_in);
        proof {
            if num_in >= 2 {
                lemma_merge_at_cursor(before, *self, num_in as int);
            }
        }
        let ghost mid = *self;
        let orig = self.info[x];
        proof { assert(orig == mid.pending()[0]); }
        let o = self.out_len;
        let mut i: usize = 0;
        while i < num_out
            invariant
                self.wf(),
                mid.wf(),
                i <= num_out,
                num_out <= glyph_data@.len(),
                o == self.out_len,
                o == mid.out_len,
                x == self.idx,
                x + num_in <= self.len,
                o + num_out <= self.out_seq().len(),
                !self.have_separate_output ==> o + num_out <= x + num_in,
                self.have_separate_output == mid.have_separate_output,
                self.info@.len() == mid.info@.len(),
                forall|k: int| x + num_in <= k < self.len ==> #[trigger] self.info@[k] == mid.info@[k],
                self.out_seq().len() == mid.out_seq().len(),
                forall|k: int| 0 <= k < o ==> #[trigger] self.out_seq()[k] == mid.out_seq()[k],
                forall|k: int| 0 <= k < i ==> #[trigger] self.out_seq()[o + k] == (hb_glyph_info_t { glyph_id: glyph_data@[k], ..orig }),
                *self == (hb_buffer_t { info: self.info, out_sep: self.out_sep, ..mid }),
            decreases num_out - i,
        {
            let mut g = orig;
            g.glyph_id = glyph_data[i];
            self.set_out_info(o + i, g);
            i = i + 1;
        }
        self.idx = x + num_in;
        self.out_len = o + num_out;
        proof {
            let out1 = mid.output();
            let tail = Seq::new(num_out as nat, |k: int| hb_glyph_info_t { glyph_id: glyph_data@[k], ..orig });
            assert forall|k: int| 0 <= k < o + num_out implies #[trigger] self.output()[k] == (out1 + tail)[k] by {
                if k < o {
                    assert(mid.output()[k] == mid.out_seq()[k]);
                } else {
                    assert(self.out_seq()[o + (k - o)] == tail[k - o]);
                }
            }
            assert(self.output() =~= out1 + tail);
            assert(self.pending() =~= mid.pending().subrange(num_in as int, mid.pending().len() as int));
            if num_in < 2 {
                assert(mid.output() == old(self).output());
                assert(mid.pending() == old(self).pending());
            }
        }
    }

    /// Moves the records not yet consumed `count` places up, keeping the
    /// output as it is, so that the output can grow back over them.
    pub fn shift_forward(&mut self, count: usize)
        requires
            old(self).wf(),
            old(self).have_output,
            old(self).len + count <= old(self).max_len,
            old(self).have_separate_output ==> old(self).out_len <= old(self).len + count,
        ensures
            final(self).wf(),
            final(self).output() == old(self).output(),
            final(self).pending() == old(self).pending(),
            final(self).idx == old(self).idx + count,
            final(self).len == old(self).len + count,
            final(self).out_len == old(self).out_len,
            final(self).have_output == old(self).have_output,
            final(self).have_separate_output == old(self).have_separate_output,
            final(self).successful == old(self).successful,
            final(self).have_positions == old(self).have_positions,
            final(self).cluster_level == old(self).cluster_level,
            final(self).flags == old(self).flags,
            final(self).max_len == old(self).max_len,
            final(self).scratch_flags == old(self).scratch_flags,
    {
        let l = self.len;
        let x = self.idx;
        self.ensure(l + count);
        let ghost m = *self;
        proof {
            assert(m.info@.len() >= l + count);
            assert(m.output() =~= old(self).output());
            assert(m.pending() =~= old(self).pending());
        }
        let n = l - x;
        let mut i = n;
        while i > 0
            invariant
                self.wf(),
                m.wf(),
                i <= n,
                n == l - x,
                l == m.len,
                x == m.idx,
                x <= l,
                l + count <= self.info@.len(),
                self.info@.len() == m.info@.len(),
                forall|k: int| 0 <= k < x + count + i ==> #[trigger] self.info@[k] == m.info@[k],
                forall|k: int| i <= k < n ==> #[trigger] self.info@[x + count + k] == m.info@[x + k],
                forall|k: int| x + count + n <= k < self.info@.len() ==> #[trigger] self.info@[k] == m.info@[k],
                *self == (hb_buffer_t { info: self.info, ..m }),
            decreases i,
        {
            i = i - 1;
            let g = self.info[x + i];
            self.info.set(x + count + i, g);
        }
        if x + count > l {
            let mut k = l;
            while k < x + count
                invariant
                    self.wf(),
                    n == l - x,
                    x <= l,
                    l <= k <= x + count,
                    x + count <= l + count,
                    l + count <= self.info@.len(),
                    self.info@.len() == m.info@.len(),
                    forall|j: int| 0 <= j < l ==> #[trigger] self.info@[j] == m.info@[j],
                    forall|j: int| 0 <= j < n ==> #[trigger] self.info@[x + count + j] == m.info@[x + j],
                    *self == (hb_buffer_t { info: self.info, ..m }),
                decreases x + count - k,
            {
                self.info.set(k, hb_glyph_info_t::empty());
                k = k + 1;
            }
        }
        self.len = l + count;
        self.idx = x + count;
        proof {
            assert forall|k: int| 0 <= k < n implies #[trigger] self.pending()[k] == old(self).pending()[k] by {
                assert(self.info@[x + count + k] == m.info@[x + k]);
                assert(m.pending()[k] == m.info@[x + k]);
            }
            assert(self.pending() =~= old(self).pending());
            assert(self.output() =~= old(self).output());
        }
    }

    /// Moves the boundary between output and input so that the output is
    /// `i` records long: forward by copying records not yet consumed to the
    /// output, backward by handing output records back to the input. With
    /// no output going on it only moves the cursor to `i`. Returns `false`,
    /// changing nothing else, when the buffer is already unsuccessful or
    /// there is no room for the records moving forward.
    pub fn move_to(&mut self, i: usize) -> (r: bool)
        requires
            old(self).wf(),
            !old(self).have_output ==> i <= old(self).len,
            !old(self).have_output && !old(self).have_separate_output ==> old(self).out_len <= i,
            old(self).have_output && old(self).successful ==> i <= old(self).out_len + (old(self).len - old(self).idx),
            old(self).have_output && old(self).successful && old(self).out_len > i
                && old(self).idx < old(self).out_len - i ==> {
                &&& old(self).len + (old(self).out_len - i - old(self).idx) <= old(self).max_len
                &&& old(self).have_separate_output ==> old(self).out_len <= old(self).len + (old(self).out_len - i - old(self).idx)
            },
        ensures
            final(self).wf(),
            !old(self).have_output ==> r && *final(self) == (hb_buffer_t { idx: i, ..*old(self) }),
            old(self).have_output && !old(self).successful ==> !r && *final(self) == *old(self),
            old(self).have_output && old(self).successful && old(self).out_len < i ==> ({
                let count = (i - old(self).out_len) as int;
                let room = i < old(self).len || i <= old(self).max_len;
                if !room {
                    !r && *final(self) == (hb_buffer_t { successful: false, ..*old(self) })
                } else {
                    &&& r
                    &&& final(self).output() == old(self).output() + old(self).pending().subrange(0, count)
                    &&& final(self).pending() == old(self).pending().subrange(count, old(self).pending().len() as int)
                }
            }),
            old(self).have_output && old(self).successful && old(self).out_len == i ==> r && *final(self) == *old(self),
            old(self).have_output && old(self).successful && old(self).out_len > i ==> ({
                let count = (old(self).out_len - i) as int;
                let d = old(self).idx - old(self).out_len;
                let out = old(self).output();
                &&& r
                &&& final(self).output() == out.subrange(0, i as int)
                &&& final(self).pending() == Seq::new(count as nat, |j: int|
                    if old(self).have_separate_output || d == 0 { out[i + j] } else { rewind_value(out, i as int, d, j) })
                    + old(self).pending()
            }),
            old(self).have_output && old(self).successful ==> final(self).out_len == i || !r,
            r && old(self).have_output && (old(self).have_separate_output || old(self).idx == old(self).out_len
                || old(self).out_len <= i || old(self).out_len - i <= old(self).idx - old(self).out_len)
                ==> final(self).output() + final(self).pending() == old(self).output() + old(self).pending(),
            final(self).have_output == old(self).have_output,
            final(self).cluster_level == old(self).cluster_level,
            final(self).flags == old(self).flags,
            final(self).max_len == old(self).max_len,
            final(self).have_positions == old(self).have_positions,
    {
        if !self.have_output {
            self.idx = i;
            return true;
        }
        if !self.successful {
            return false;
        }
        if self.out_len < i {
            let count = i - self.out_len;
            if !self.make_room_for(count, count) {
                return false;
            }
            let ghost mid = *self;
            let o = self.out_len;
            let x = self.idx;
            let mut j: usize = 0;
            while j < count
                invariant
                    self.wf(),
                    j <= count,
                    o == self.out_len,
                    x == self.idx,
                    x + count <= self.len,
                    o + count <= self.out_seq().len(),
                    !self.have_separate_output ==> o <= x,
                    self.have_separate_output == mid.have_separate_output,
                    self.info@.len() == mid.info@.len(),
                    forall|k: int| x + j <= k < self.len ==> #[trigger] self.info@[k] == mid.info@[k],
                    self.out_seq().len() == mid.out_seq().len(),
                    forall|k: int| 0 <= k < o ==> #[trigger] self.out_seq()[k] == mid.out_seq()[k],
                    forall|k: int| 0 <= k < j ==> #[trigger] self.out_seq()[o + k] == mid.info@[x + k],
                    *self == (hb_buffer_t { info: self.info, out_sep: self.out_sep, ..mid }),
                decreases count - j,
            {
                let g = self.info[x + j];
                self.set_out_info(o + j, g);
                j = j + 1;
            }
            self.idx = x + count;
            self.out_len = o + count;
            proof {
                let moved = old(self).pending().subrange(0, count as int);
                assert forall|k: int| 0 <= k < o + count implies #[trigger] self.output()[k] == (old(self).output() + moved)[k] by {
                    if k < o {
                        assert(mid.output()[k] == mid.out_seq()[k]);
                    } else {
                        assert(self.out_seq()[o + (k - o)] == mid.info@[x + (k - o)]);
                        assert(mid.pending()[k - o] == mid.info@[x + (k - o)]);
                    }
                }
                assert(self.output() =~= old(self).output() + moved);
                assert(self.pending() =~= old(self).pending().subrange(count as int, old(self).pending().len() as int));
                assert(self.output() + self.pending() =~= old(self).output() + old(self).pending());
            }
        } else if self.out_len > i {
            let count = self.out_len - i;
            if self.idx < count {
                let sh = count - self.idx;
                self.shift_forward(sh);
            }
            let ghost m = *self;
            let x2 = self.idx - count;
            let o2 = self.out_len - count;
            self.idx = x2;
            self.out_len = o2;
            let ghost d = old(self).idx - old(self).out_len;
            proof {
                assert(m.output() == old(self).output());
                assert(!self.have_separate_output ==> m.idx == old(self).idx);
            }
            let mut j: usize = 0;
            while j < count
                invariant
                    self.wf(),
                    m.wf(),
                    j <= count,
                    o2 == self.out_len,
                    x2 == self.idx,
                    o2 + count == m.out_len,
                    x2 + count == m.idx,
                    o2 == i,
                    d == old(self).idx - old(self).out_len,
                    !m.have_separate_output ==> d == m.idx - m.out_len,
                    self.have_separate_output == m.have_separate_output,
                    self.info@.len() == m.info@.len(),
                    self.out_sep == m.out_sep,
                    forall|k: int| 0 <= k < x2 ==> #[trigger] self.info@[k] == m.info@[k],
                    forall|k: int| x2 + j <= k < self.info@.len() ==> #[trigger] self.info@[k] == m.info@[k],
                    forall|k: int| 0 <= k < j ==> #[trigger] self.info@[x2 + k] == (
                        if m.have_separate_output || d == 0 { m.output()[i + k] } else { rewind_value(m.output(), i as int, d, k) }),
                    *self == (hb_buffer_t { info: self.info, idx: x2, out_len: o2, ..m }),
                decreases count - j,
            {
                let g = self.out_get(o2 + j);
                proof {
                    if m.have_separate_output {
                        assert(g == m.output()[i + j]);
                    } else if d == 0 {
                        assert(g == m.info@[x2 + j]);
                        assert(g == m.output()[i + j]);
                    } else if j < d {
                        assert(o2 + j < x2);
                        assert(g == m.output()[i + j]);
                        assert(rewind_value(m.output(), i as int, d, j as int) == m.output()[i + j]);
                    } else {
                        assert(o2 + j == x2 + (j - d));
                        assert(rewind_value(m.output(), i as int, d, j as int) == rewind_value(m.output(), i as int, d, j - d));
                    }
                }
                self.info.set(x2 + j, g);
                j = j + 1;
            }
            proof {
                let out = old(self).output();
                let newp = Seq::new(count as nat, |j: int|
                    if old(self).have_separate_output || d == 0 { out[i + j] } else { rewind_value(out, i as int, d, j) });
                assert forall|k: int| 0 <= k < self.pending().len() implies #[trigger] self.pending()[k] == (newp + old(self).pending())[k] by {
                    if k < count {
                        assert(self.info@[x2 + k] == newp[k]);
                    } else {
                        assert(self.info@[x2 + count + (k - count)] == m.info@[m.idx + (k - count)]);
                        assert(m.pending()[k - count] == old(self).pending()[k - count]);
                    }
                }
                assert(self.pending() =~= newp + old(self).pending());
                assert(self.output() =~= out.subrange(0, i as int));
                if old(self).have_separate_output || old(self).idx == old(self).out_len
                    || old(self).out_len - i <= old(self).idx - old(self).out_len {
                    assert forall|k: int| 0 <= k < count implies #[trigger] newp[k] == out[i + k] by {
                        if !(old(self).have_separate_output || d == 0) {
                            assert(k < d);
                        }
                    }
                    assert(self.output() + self.pending() =~= out + old(self).pending());
                }
            }
        }
        true
    }

    /// Cluster of output record `i`.
    fn out_cluster(&self, i: usize) -> (r: u32)
        requires
            self.wf(),
            i < self.out_seq().len(),
        ensures
            r == self.out_seq()[i as int].cluster,
    {
        if self.have_separate_output {
            self.out_sep[i].cluster
        } else {
            self.info[i].cluster
        }
    }

    /// Output record `i`.
    fn out_get(&self, i: usize) -> (r: hb_glyph_info_t)
        requires
            self.wf(),
            i < self.out_seq().len(),
        ensures
            r == self.out_seq()[i as int],
    {
        if self.have_separate_output {
            self.out_sep[i]
        } else {
            self.info[i]
        }
    }

    /// Sets the cluster of a record; when it changes, the record's glyph
    /// flags become those of `mask`.
    pub fn set_cluster(info: &mut hb_glyph_info_t, cluster: u32, mask: u32)
        ensures
            *final(info) == with_cluster(*old(info), cluster, mask),
    {
        if info.cluster != cluster {
            info.mask = (info.mask & !GLYPH_FLAG_DEFINED) | (mask & GLYPH_FLAG_DEFINED);
        }
        info.cluster = cluster;
    }
}

pub proof fn lemma_or_idem(a: u32, b: u32)
    ensures
        (a | b) | b == a | b,
{
    assert((a | b) | b == a | b) by (bit_vector);
}

/// The record that lands at place `j` when `out[i..]` is copied, one
/// record after another, onto places `d` further along in the same vector:
/// places already written are read again.
pub open spec fn rewind_value(out: Seq<hb_glyph_info_t>, i: int, d: int, j: int) -> hb_glyph_info_t
    decreases j,
{
    if d <= 0 || j < d {
        out[i + j]
    } else {
        rewind_value(out, i, d, j - d)
    }
}

/// `s` with the records of `s[a..b]` moved to cluster `c` (see `with_cluster`).
pub open spec fn clustered(s: Seq<hb_glyph_info_t>, a: int, b: int, c: u32, mask: u32) -> Seq<hb_glyph_info_t> {
    Seq::new(s.len(), |k: int| if a <= k < b { with_cluster(s[k], c, mask) } else { s[k] })
}

/// Where merging the clusters of `start..end` moves them: the smallest of them.
pub open spec fn merge_cluster_value(b: hb_buffer_t, start: int, end: int) -> u32 {
    min_cluster(b.info@, start, end, u32::MAX)
}

/// Where a merge of `start..end` ends: extended over records that share
/// the cluster of the record before them.
pub open spec fn merge_end(b: hb_buffer_t, end: int) -> int {
    run_end(b.info@, end, b.len as int)
}

/// Where a merge of `start..end` begins in the output: when the range
/// starts at the cursor, at the start of the output's last run of records
/// of the range's first cluster; else nothing in the output merges.
pub open spec fn merge_out_start(b: hb_buffer_t, start: int) -> int {
    if b.idx == start {
        run_start_back(b.out_seq(), b.out_len as int, b.info@[start].cluster)
    } else {
        b.out_len as int
    }
}

/// The records after merging the clusters of `start..end`.
pub open spec fn merged_info(b: hb_buffer_t, start: int, end: int) -> Seq<hb_glyph_info_t> {
    if b.cluster_level == HB_BUFFER_CLUSTER_LEVEL_CHARACTERS {
        flagged_interior(b.info@, start, end, min_cluster(b.info@, start, end, u32::MAX),
            UNSAFE_TO_BREAK | UNSAFE_TO_CONCAT)
    } else {
        let c = merge_cluster_value(b, start, end);
        let base = if b.have_separate_output {
            b.info@
        } else {
            clustered(b.info@, merge_out_start(b, start), b.out_len as int, c, 0)
        };
        clustered(base, start, merge_end(b, end), c, 0)
    }
}

/// The separate output records after merging the clusters of `start..end`.
pub open spec fn merged_out_sep(b: hb_buffer_t, start: int, end: int) -> Seq<hb_glyph_info_t> {
    if b.cluster_level != HB_BUFFER_CLUSTER_LEVEL_CHARACTERS && b.have_separate_output {
        clustered(b.out_sep@, merge_out_start(b, start), b.out_len as int,
            merge_cluster_value(b, start, end), 0)
    } else {
        b.out_sep@
    }
}

/// The scratch flags after merging clusters.
pub open spec fn merged_scratch(b: hb_buffer_t) -> u32 {
    if b.cluster_level == HB_BUFFER_CLUSTER_LEVEL_CHARACTERS {
        b.scratch_flags | SCRATCH_HAS_GLYPH_FLAGS
    } else {
        b.scratch_flags
    }
}

/// The buffer `after` is `before` with the clusters of `start..end` merged.
pub open spec fn is_merged(before: hb_buffer_t, after: hb_buffer_t, start: int, end: int) -> bool {
    &&& after.info@ == merged_info(before, start, end)
    &&& after.out_sep@ == merged_out_sep(before, start, end)
    &&& after == (hb_buffer_t { info: after.info, out_sep: after.out_sep,
        scratch_flags: merged_scratch(before), ..before })
}

pub proof fn lemma_min_cluster_shift(s: Seq<hb_glyph_info_t>, lo: int, hi: int, a: int, b: int, init: u32)
    requires
        0 <= lo <= a,
        a <= b <= hi <= s.len(),
    ensures
        min_cluster(s, a, b, init) == min_cluster(s.subrange(lo, hi), a - lo, b - lo, init),
    decreases b - a,
{
    if b > a {
        lemma_min_cluster_shift(s, lo, hi, a, b - 1, init);
        assert(s.subrange(lo, hi)[b - 1 - lo] == s[b - 1]);
    }
}

pub proof fn lemma_run_end_shift(s: Seq<hb_glyph_info_t>, lo: int, e: int, limit: int)
    requires
        0 <= lo < e <= limit <= s.len(),
    ensures
        run_end(s, e, limit) - lo == run_end(s.subrange(lo, limit), e - lo, limit - lo),
    decreases limit - e,
{
    if e < limit {
        assert(s.subrange(lo, limit)[e - lo] == s[e]);
        assert(s.subrange(lo, limit)[e - 1 - lo] == s[e - 1]);
        if s[e - 1].cluster == s[e].cluster {
            lemma_run_end_shift(s, lo, e + 1, limit);
        }
    }
}

pub proof fn lemma_run_start_back_prefix(s: Seq<hb_glyph_info_t>, m: int, n: int, c: u32)
    requires
        0 <= n <= m <= s.len(),
    ensures
        run_start_back(s, n, c) == run_start_back(s.subrange(0, m), n, c),
    decreases n,
{
    if n > 0 {
        assert(s.subrange(0, m)[n - 1] == s[n - 1]);
        lemma_run_start_back_prefix(s, m, n - 1, c);
    }
}

/// The output after merging the clusters of the `n` records at the cursor,
/// in terms of the output and of the records not yet consumed.
pub open spec fn cursor_merged_output(out: Seq<hb_glyph_info_t>, pend: Seq<hb_glyph_info_t>, n: int, level: u32) -> Seq<hb_glyph_info_t> {
    if level == HB_BUFFER_CLUSTER_LEVEL_CHARACTERS || n < 2 {
        out
    } else {
        clustered(out, run_start_back(out, out.len() as int, pend[0].cluster), out.len() as int,
            min_cluster(pend, 0, n, u32::MAX), 0)
    }
}

/// The records not yet consumed after merging the clusters of the `n`
/// records at the cursor.
pub open spec fn cursor_merged_pending(pend: Seq<hb_glyph_info_t>, n: int, level: u32) -> Seq<hb_glyph_info_t> {
    if n < 2 {
        pend
    } else if level == HB_BUFFER_CLUSTER_LEVEL_CHARACTERS {
        flagged_interior(pend, 0, n, min_cluster(pend, 0, n, u32::MAX), UNSAFE_TO_BREAK | UNSAFE_TO_CONCAT)
    } else {
        clustered(pend, 0, run_end(pend, n, pend.len() as int), min_cluster(pend, 0, n, u32::MAX), 0)
    }
}

/// A merge at the cursor, seen through the output and the records not yet
/// consumed.
pub proof fn lemma_merge_at_cursor(b: hb_buffer_t, after: hb_buffer_t, n: int)
    requires
        b.wf(),
        2 <= n,
        b.idx + n <= b.len,
        is_merged(b, after, b.idx as int, b.idx + n),
    ensures
        after.output() == cursor_merged_output(b.output(), b.pending(), n, b.cluster_level),
        after.pending() == cursor_merged_pending(b.pending(), n, b.cluster_level),
{
    let x = b.idx as int;
    let l = b.len as int;
    let ol = b.out_len as int;
    let pend = b.pending();
    lemma_min_cluster_shift(b.info@, x, l, x, x + n, u32::MAX);
    if b.cluster_level == HB_BUFFER_CLUSTER_LEVEL_CHARACTERS {
        assert(after.output() =~= b.output());
        assert(after.pending() =~= cursor_merged_pending(pend, n, b.cluster_level));
    } else {
        lemma_run_end_shift(b.info@, x, x + n, l);
        lemma_run_start_back_prefix(b.out_seq(), ol, ol, b.info@[x].cluster);
        assert(b.out_seq().subrange(0, ol) == b.output());
        assert(pend[0] == b.info@[x]);
        lemma_run_start_back(b.out_seq(), ol, b.info@[x].cluster);
        lemma_run_end(b.info@, x + n, l);
        assert(after.output() =~= cursor_merged_output(b.output(), pend, n, b.cluster_level));
        assert(after.pending() =~= cursor_merged_pending(pend, n, b.cluster_level));
    }
}

/// `s` with `mask` added to the records of `s[a..b]`.
pub open spec fn flagged(s: Seq<hb_glyph_info_t>, a: int, b: int, mask: u32) -> Seq<hb_glyph_info_t> {
    Seq::new(s.len(), |k: int| if a <= k < b { hb_glyph_info_t { mask: s[k].mask | mask, ..s[k] } } else { s[k] })
}

/// Every record of `s` that is unsafe to break is unsafe to concatenate too.
pub open spec fn break_implies_concat(s: Seq<hb_glyph_info_t>) -> bool {
    forall|k: int|
        0 <= k < s.len() ==> (#[trigger] s[k].mask & UNSAFE_TO_BREAK != 0 ==> s[k].mask & UNSAFE_TO_CONCAT != 0)
}

/// Setting glyph flags (see `flagged` and `flagged_interior`, which
/// `unsafe_to_break`, `unsafe_to_concat` and the other flag setters use)
/// never marks a record unsafe to break without marking it unsafe to
/// concatenate: the unsafe-to-break flag always implies the
/// unsafe-to-concat flag.
pub proof fn lemma_glyph_flags_keep_break_implies_concat(s: Seq<hb_glyph_info_t>, a: int, b: int, c: u32, mask: u32)
    requires
        break_implies_concat(s),
        mask & UNSAFE_TO_BREAK != 0 ==> mask & UNSAFE_TO_CONCAT != 0,
    ensures
        break_implies_concat(flagged(s, a, b, mask)),
        break_implies_concat(flagged_interior(s, a, b, c, mask)),
{
    assert forall|m: u32| (m & 1 != 0 ==> m & 2 != 0) && (mask & 1 != 0 ==> mask & 2 != 0)
        implies ((m | mask) & 1 != 0 ==> (m | mask) & 2 != 0) by {
        assert((m & 1 != 0 ==> m & 2 != 0) && (mask & 1 != 0 ==> mask & 2 != 0)
            ==> ((m | mask) & 1 != 0 ==> (m | mask) & 2 != 0)) by (bit_vector);
    }
    let f = flagged(s, a, b, mask);
    let g = flagged_interior(s, a, b, c, mask);
    assert forall|k: int| 0 <= k < f.len() implies (#[trigger] f[k].mask & UNSAFE_TO_BREAK != 0 ==> f[k].mask & UNSAFE_TO_CONCAT != 0) by {
        assert(s[k].mask & UNSAFE_TO_BREAK != 0 ==> s[k].mask & UNSAFE_TO_CONCAT != 0);
    }
    assert forall|k: int| 0 <= k < g.len() implies (#[trigger] g[k].mask & UNSAFE_TO_BREAK != 0 ==> g[k].mask & UNSAFE_TO_CONCAT != 0) by {
        assert(s[k].mask & UNSAFE_TO_BREAK != 0 ==> s[k].mask & UNSAFE_TO_CONCAT != 0);
    }
}

/// `s` with `mask` added to the records of `s[a..b]` whose cluster is not `c`.
pub open spec fn flagged_interior(s: Seq<hb_glyph_info_t>, a: int, b: int, c: u32, mask: u32) -> Seq<hb_glyph_info_t> {
    Seq::new(s.len(), |k: int| if a <= k < b && s[k].cluster != c {
        hb_glyph_info_t { mask: s[k].mask | mask, ..s[k] }
    } else {
        s[k]
    })
}

/// `s` with `s[a..b]` reversed.
pub open spec fn reversed_range<T>(s: Seq<T>, a: int, b: int) -> Seq<T> {
    Seq::new(s.len(), |i: int| if a <= i < b { s[a + b - 1 - i] } else { s[i] })
}

/// Reversing a range twice gives the records back: `reverse_range` (and
/// `reverse`) undo themselves.
pub proof fn lemma_reverse_range_twice<T>(s: Seq<T>, a: int, b: int)
    requires
        0 <= a <= b <= s.len(),
    ensures
        reversed_range(reversed_range(s, a, b), a, b) == s,
{
    assert(reversed_range(reversed_range(s, a, b), a, b) =~= s);
}

/// Reverses `v[start..end]` in place.
fn reverse_vec_range<T: Copy>(v: &mut Vec<T>, start: usize, end: usize)
    requires
        start <= end <= old(v)@.len(),
    ensures
        final(v)@ == reversed_range(old(v)@, start as int, end as int),
{
    if end - start < 2 {
        assert(reversed_range(old(v)@, start as int, end as int) =~= old(v)@);
        return;
    }
    let mut i = start;
    let mut j = end - 1;
    while i < j
        invariant
            start <= i,
            j < end,
            i <= j + 1,
            i + j == start + end - 1,
            v@.len() == old(v)@.len(),
            end <= v@.len(),
            forall|k: int| 0 <= k < v@.len() ==> #[trigger] v@[k] == (
                if (start <= k < i) || (j < k < end) { old(v)@[start + end - 1 - k] } else { old(v)@[k] }),
        decreases end - i,
    {
        let a = v[i];
        let b = v[j];
        v.set(i, b);
        v.set(j, a);
        i = i + 1;
        j = j - 1;
    }
    assert forall|k: int| 0 <= k < v@.len() implies #[trigger] v@[k] == reversed_range(old(v)@, start as int, end as int)[k] by {
        assert(v@[k] == (if (start <= k < i) || (j < k < end) { old(v)@[start + end - 1 - k] } else { old(v)@[k] }));
        if start <= k < end && !((start <= k < i) || (j < k < end)) {
            assert(i <= k <= j);
            assert(k == start + end - 1 - k);
        }
    }
    assert(v@ =~= reversed_range(old(v)@, start as int, end as int));
}

/// `s` cut or extended to length `n`, new elements being `fill`.
pub open spec fn resized<T>(s: Seq<T>, n: int, fill: T) -> Seq<T> {
    if n <= s.len() {
        s.subrange(0, n)
    } else {
        s + Seq::new((n - s.len()) as nat, |i: int| fill)
    }
}

proof fn lemma_resized<T>(s: Seq<T>, t: Seq<T>, n: int, fill: T)
    requires
        0 <= n,
        n <= s.len() ==> t == s.subrange(0, n),
        n > s.len() ==> {
            &&& t.len() == n
            &&& t.subrange(0, s.len() as int) == s
            &&& forall|i| s.len() <= i < n ==> t[i] == fill
        },
    ensures
        t == resized(s, n, fill),
{
    if n > s.len() {
        assert(t =~= resized(s, n, fill)) by {
            assert forall|i| 0 <= i < n implies t[i] == resized(s, n, fill)[i] by {
                if i < s.len() {
                    assert(t[i] == t.subrange(0, s.len() as int)[i]);
                }
            }
        }
    }
}

} // verus!
