//! Arabic joining: the joining state machine that picks the positional form
//! of each letter, and the reordering of modifier combining marks.
use vstd::prelude::*;
use crate::buffer::{hb_buffer_t, min_cluster, flagged_interior, lemma_or_idem};
use crate::buffer_moves::{merged_or_same, with_records, block_moved, merge_range, move_block_records};
use crate::glyph::{
    hb_glyph_info_t, byte2, lo16, UNSAFE_TO_BREAK, UNSAFE_TO_CONCAT, SCRATCH_HAS_GLYPH_FLAGS,
};
use crate::unicode::GeneralCategory;
use crate::common::Tag;
use crate::flags::{rb_flag, rb_flag_unsafe};
use crate::arabic_table::{JoiningType, joining_code, table_joining, table_joining_type};

verus! {

/// The joining type of code point `u` of general category `gc`: the
/// table's, or, where the table leaves it undecided, transparent for
/// non-spacing and enclosing marks and format characters and non-joining
/// for the rest.
pub open spec fn char_joining(u: u32, gc: GeneralCategory) -> JoiningType {
    let j = table_joining(u);
    if j != JoiningType::X {
        j
    } else if gc == GeneralCategory::NonspacingMark || gc == GeneralCategory::EnclosingMark || gc
        == GeneralCategory::Format {
        JoiningType::T
    } else {
        JoiningType::U
    }
}

/// The joining type of code point `u` of general category `gc`.
pub fn get_joining_type(u: u32, gc: GeneralCategory) -> (r: JoiningType)
    ensures
        r == char_joining(u, gc),
{
    let j_type = table_joining_type(u);
    if j_type != JoiningType::X {
        return j_type;
    }
    let g = gc.to_rb();
    let ok = rb_flag_unsafe(g) & (rb_flag(12) | rb_flag(11) | rb_flag(1));
    proof {
        crate::unicode::lemma_gc_code_roundtrip(gc);
        assert(g < 32 ==> (((1u32 << g) & ((1u32 << 12u32) | (1u32 << 11u32) | (1u32 << 1u32)))
            != 0 <==> (g == 12 || g == 11 || g == 1))) by (bit_vector);
    }
    if ok != 0 {
        JoiningType::T
    } else {
        JoiningType::U
    }
}

/// Whether the last letter of a feature tag is `2` or `3` (a Syriac form).
pub fn feature_is_syriac(tag: Tag) -> (r: bool)
    ensures
        r == ((tag.0 & 0xff) as u8 == 0x32u8 || (tag.0 & 0xff) as u8 == 0x33u8),
{
    let b = tag.to_bytes();
    b[3] == 0x32u8 || b[3] == 0x33u8
}


/// The shaping actions, stored in the shaper byte of each record: the
/// positional forms, no form, and the stretching pieces.
pub const ACTION_ISOL: u8 = 0;
pub const ACTION_FINA: u8 = 1;
pub const ACTION_FIN2: u8 = 2;
pub const ACTION_FIN3: u8 = 3;
pub const ACTION_MEDI: u8 = 4;
pub const ACTION_MED2: u8 = 5;
pub const ACTION_INIT: u8 = 6;
pub const ACTION_NONE: u8 = 7;
pub const ACTION_STRETCHING_FIXED: u8 = 8;
pub const ACTION_STRETCHING_REPEATING: u8 = 9;

/// The joining state machine: for each state (seven) and joining type
/// (six), the action for the previous glyph, the action for this one and
/// the next state.
pub const STATE_TABLE: [u8; 126] = [
    7, 7, 0, 7, 0, 2, 7, 0, 1, 7, 0, 2, 7, 0, 1, 7, 0, 6,
    7, 7, 0, 7, 0, 2, 7, 0, 1, 7, 0, 2, 7, 2, 5, 7, 0, 6,
    7, 7, 0, 7, 0, 2, 6, 1, 1, 6, 1, 3, 6, 1, 4, 6, 1, 6,
    7, 7, 0, 7, 0, 2, 4, 1, 1, 4, 1, 3, 4, 1, 4, 4, 1, 6,
    7, 7, 0, 7, 0, 2, 5, 0, 1, 5, 0, 2, 5, 2, 5, 5, 0, 6,
    7, 7, 0, 7, 0, 2, 0, 0, 1, 0, 0, 2, 0, 2, 5, 0, 0, 6,
    7, 7, 0, 7, 0, 2, 7, 0, 1, 7, 0, 2, 7, 3, 5, 7, 0, 6,
];

/// The entry of the joining state machine for state `state` and joining
/// type `t`: the action for the previous glyph, the action for this one, the
/// next state.
pub open spec fn state_entry(state: int, t: JoiningType) -> (u8, u8, u8) {
    let base = (state * 6 + joining_code(t)) * 3;
    (STATE_TABLE@[base], STATE_TABLE@[base + 1], STATE_TABLE@[base + 2])
}

/// Every next state of the table is a state.
proof fn lemma_state_table()
    ensures
        forall|k: int| 0 <= k < 42 ==> #[trigger] STATE_TABLE@[3 * k + 2] < 7,
{
}

/// The first joining type from `k` on that is not transparent.
pub open spec fn first_joining(ts: Seq<JoiningType>, k: int) -> Option<JoiningType>
    decreases ts.len() - k,
{
    if k < 0 || k >= ts.len() {
        None
    } else if ts[k] != JoiningType::T {
        Some(ts[k])
    } else {
        first_joining(ts, k + 1)
    }
}

/// The state after the text before the buffer.
pub open spec fn initial_joining_state(pre: Seq<JoiningType>) -> int {
    match first_joining(pre, 0) {
        Some(t) => state_entry(0, t).2 as int,
        None => 0,
    }
}

/// The joining types of the first `len` characters of a context.
pub open spec fn context_joining(ctx: [char; 5], gcs: [GeneralCategory; 5], len: int) -> Seq<
    JoiningType,
> {
    Seq::new(len as nat, |i: int| char_joining(ctx[i] as u32, gcs[i]))
}

/// The joining types of the first `len` records.
pub open spec fn record_joining(infos: Seq<hb_glyph_info_t>, len: int) -> Seq<JoiningType> {
    Seq::new(
        len as nat,
        |i: int| char_joining(infos[i].glyph_id, infos[i].spec_general_category()),
    )
}

/// `info` with shaping action `a`.
pub open spec fn with_action(info: hb_glyph_info_t, a: u8) -> hb_glyph_info_t {
    hb_glyph_info_t {
        glyph_id: info.glyph_id,
        mask: info.mask,
        cluster: info.cluster,
        var1: info.var1,
        var2: (info.var2 & 0xFF00_FFFFu32) | ((a as u32) << 16u32),
    }
}

/// `s` with shaping action `a` at `i`.
pub open spec fn set_action_at(s: Seq<hb_glyph_info_t>, i: int, a: u8) -> Seq<hb_glyph_info_t> {
    s.update(i, with_action(s[i], a))
}

/// `s` with the records from `a` to before `b`, but those of the range's
/// smallest cluster, marked unsafe to break and to concatenate.
pub open spec fn unsafe_range(s: Seq<hb_glyph_info_t>, a: int, b: int) -> Seq<hb_glyph_info_t> {
    if b - a < 2 {
        s
    } else {
        flagged_interior(s, a, b, min_cluster(s, a, b, u32::MAX), UNSAFE_TO_BREAK | UNSAFE_TO_CONCAT)
    }
}

/// The joining pass after some records.
pub ghost struct JoinRun {
    pub state: int,
    /// The last record that is not transparent.
    pub prev: Option<int>,
    pub infos: Seq<hb_glyph_info_t>,
    /// Whether a range was marked unsafe to break.
    pub flagged: bool,
}

/// The joining pass over the first `k` records of types `types`, from state
/// `state0`: a transparent record gets no action; any other one gets the
/// action of its entry, and the entry's action for the previous glyph, if
/// any, replaces that glyph's and makes the range up to this one unsafe to
/// break.
pub open spec fn join_upto(
    infos0: Seq<hb_glyph_info_t>,
    types: Seq<JoiningType>,
    state0: int,
    k: int,
) -> JoinRun
    decreases k,
{
    if k <= 0 {
        JoinRun { state: state0, prev: None, infos: infos0, flagged: false }
    } else {
        let r = join_upto(infos0, types, state0, k - 1);
        let i = k - 1;
        if types[i] == JoiningType::T {
            JoinRun { state: r.state, prev: r.prev, infos: set_action_at(r.infos, i, ACTION_NONE), flagged: r.flagged }
        } else {
            let e = state_entry(r.state, types[i]);
            let joins = e.0 != ACTION_NONE && r.prev is Some;
            let s1 = if joins {
                unsafe_range(set_action_at(r.infos, r.prev->0, e.0), r.prev->0, i + 1)
            } else {
                r.infos
            };
            JoinRun {
                state: e.2 as int,
                prev: Some(i),
                infos: set_action_at(s1, i, e.1),
                flagged: r.flagged || joins,
            }
        }
    }
}

/// The whole joining pass: the text before the buffer sets the first state,
/// the first character after it that is not transparent may change the
/// action of the last glyph.
pub open spec fn joined(
    infos0: Seq<hb_glyph_info_t>,
    pre: Seq<JoiningType>,
    types: Seq<JoiningType>,
    post: Seq<JoiningType>,
) -> JoinRun {
    let r = join_upto(infos0, types, initial_joining_state(pre), types.len() as int);
    match first_joining(post, 0) {
        Some(t) => {
            let e = state_entry(r.state, t);
            if e.0 != ACTION_NONE && r.prev is Some {
                JoinRun { state: r.state, prev: r.prev, infos: set_action_at(r.infos, r.prev->0, e.0), flagged: r.flagged }
            } else {
                r
            }
        },
        None => r,
    }
}

/// The shaping action a record holds.
pub open spec fn action_of(info: hb_glyph_info_t) -> u8 {
    byte2(info.var2)
}

/// Where record `j` of a buffer stands once record `m` is taken out.
pub open spec fn shifted(j: int, m: int) -> int {
    if j < m { j } else { j - 1 }
}

/// A last joining record of the buffer without record `m`, as a record of
/// the whole buffer.
pub open spec fn unshifted_prev(p: Option<int>, m: int) -> Option<int> {
    match p {
        Some(q) => Some(if q < m { q } else { q + 1 }),
        None => None,
    }
}

proof fn lemma_set_action_at(s: Seq<hb_glyph_info_t>, i: int, a: u8)
    requires
        0 <= i < s.len(),
    ensures
        set_action_at(s, i, a).len() == s.len(),
        action_of(set_action_at(s, i, a)[i]) == a,
        forall|j: int| 0 <= j < s.len() && j != i ==> #[trigger] set_action_at(s, i, a)[j] == s[j],
{
    crate::glyph::lemma_with_byte2(s[i].var2, a);
}

proof fn lemma_unsafe_range_actions(s: Seq<hb_glyph_info_t>, a: int, b: int)
    ensures
        unsafe_range(s, a, b).len() == s.len(),
        forall|j: int| 0 <= j < s.len() ==> #[trigger] action_of(unsafe_range(s, a, b)[j]) == action_of(s[j]),
{
}

/// The joining pass leaves the records from `k` on as they were, and its
/// last joining record comes before `k`.
proof fn lemma_join_frame(infos0: Seq<hb_glyph_info_t>, types: Seq<JoiningType>, state0: int, k: int)
    requires
        0 <= k <= types.len() <= infos0.len(),
    ensures
        join_upto(infos0, types, state0, k).infos.len() == infos0.len(),
        forall|j: int| k <= j < infos0.len() ==> #[trigger] join_upto(infos0, types, state0, k).infos[j] == infos0[j],
        join_upto(infos0, types, state0, k).prev matches Some(p) ==> 0 <= p < k,
    decreases k,
{
    if k > 0 {
        lemma_join_frame(infos0, types, state0, k - 1);
        let r = join_upto(infos0, types, state0, k - 1);
        let i = k - 1;
        if types[i] == JoiningType::T {
            lemma_set_action_at(r.infos, i, ACTION_NONE);
        } else {
            let e = state_entry(r.state, types[i]);
            let joins = e.0 != ACTION_NONE && r.prev is Some;
            if joins {
                lemma_set_action_at(r.infos, r.prev->0, e.0);
                lemma_unsafe_range_actions(set_action_at(r.infos, r.prev->0, e.0), r.prev->0, i + 1);
                let s0 = set_action_at(r.infos, r.prev->0, e.0);
                assert forall|j: int| k <= j < infos0.len() implies #[trigger] unsafe_range(s0, r.prev->0, i + 1)[j] == s0[j] by {}
                lemma_set_action_at(unsafe_range(s0, r.prev->0, i + 1), i, e.1);
            } else {
                lemma_set_action_at(r.infos, i, e.1);
            }
        }
    }
}

/// Before the transparent record `m`, the passes over a buffer and over the
/// buffer without it agree.
proof fn lemma_join_before(infos0: Seq<hb_glyph_info_t>, types: Seq<JoiningType>, state0: int, m: int, k: int)
    requires
        0 <= k <= m < types.len() <= infos0.len(),
    ensures
        ({
            let a = join_upto(infos0, types, state0, k);
            let b = join_upto(infos0.remove(m), types.remove(m), state0, k);
            &&& a.state == b.state
            &&& a.prev == b.prev
            &&& forall|j: int| 0 <= j < k ==> #[trigger] action_of(a.infos[j]) == action_of(b.infos[j])
        }),
    decreases k,
{
    if k > 0 {
        lemma_join_before(infos0, types, state0, m, k - 1);
        lemma_join_frame(infos0, types, state0, k - 1);
        lemma_join_frame(infos0.remove(m), types.remove(m), state0, k - 1);
        let ra = join_upto(infos0, types, state0, k - 1);
        let rb = join_upto(infos0.remove(m), types.remove(m), state0, k - 1);
        let i = k - 1;
        assert(types.remove(m)[i] == types[i]);
        if types[i] == JoiningType::T {
            lemma_set_action_at(ra.infos, i, ACTION_NONE);
            lemma_set_action_at(rb.infos, i, ACTION_NONE);
        } else {
            let e = state_entry(ra.state, types[i]);
            if e.0 != ACTION_NONE && ra.prev is Some {
                let p = ra.prev->0;
                lemma_set_action_at(ra.infos, p, e.0);
                lemma_set_action_at(rb.infos, p, e.0);
                let sa = set_action_at(ra.infos, p, e.0);
                let sb = set_action_at(rb.infos, p, e.0);
                lemma_unsafe_range_actions(sa, p, i + 1);
                lemma_unsafe_range_actions(sb, p, i + 1);
                lemma_set_action_at(unsafe_range(sa, p, i + 1), i, e.1);
                lemma_set_action_at(unsafe_range(sb, p, i + 1), i, e.1);
            } else {
                lemma_set_action_at(ra.infos, i, e.1);
                lemma_set_action_at(rb.infos, i, e.1);
            }
        }
    }
}

/// From the transparent record `m` on, the pass over a buffer runs one
/// record ahead of the pass over the buffer without it, and they agree.
proof fn lemma_join_after(infos0: Seq<hb_glyph_info_t>, types: Seq<JoiningType>, state0: int, m: int, k: int)
    requires
        0 <= m < k <= types.len() <= infos0.len(),
        types[m] == JoiningType::T,
    ensures
        ({
            let a = join_upto(infos0, types, state0, k);
            let b = join_upto(infos0.remove(m), types.remove(m), state0, k - 1);
            &&& a.state == b.state
            &&& a.prev == unshifted_prev(b.prev, m)
            &&& action_of(a.infos[m]) == ACTION_NONE
            &&& forall|j: int| 0 <= j < k && j != m ==> #[trigger] action_of(a.infos[j]) == action_of(b.infos[shifted(j, m)])
        }),
    decreases k,
{
    lemma_join_frame(infos0, types, state0, k - 1);
    lemma_join_frame(infos0.remove(m), types.remove(m), state0, k - 1);
    let ra = join_upto(infos0, types, state0, k - 1);
    let i = k - 1;
    if k == m + 1 {
        lemma_join_before(infos0, types, state0, m, m);
        lemma_set_action_at(ra.infos, i, ACTION_NONE);
    } else {
        lemma_join_after(infos0, types, state0, m, k - 1);
        lemma_join_frame(infos0.remove(m), types.remove(m), state0, k - 2);
        let rb = join_upto(infos0.remove(m), types.remove(m), state0, k - 2);
        let ib = k - 2;
        assert(types.remove(m)[ib] == types[i]);
        if types[i] == JoiningType::T {
            lemma_set_action_at(ra.infos, i, ACTION_NONE);
            lemma_set_action_at(rb.infos, ib, ACTION_NONE);
        } else {
            let e = state_entry(ra.state, types[i]);
            if e.0 != ACTION_NONE && ra.prev is Some {
                let p = ra.prev->0;
                let pb = rb.prev->0;
                lemma_set_action_at(ra.infos, p, e.0);
                lemma_set_action_at(rb.infos, pb, e.0);
                let sa = set_action_at(ra.infos, p, e.0);
                let sb = set_action_at(rb.infos, pb, e.0);
                lemma_unsafe_range_actions(sa, p, i + 1);
                lemma_unsafe_range_actions(sb, pb, ib + 1);
                lemma_set_action_at(unsafe_range(sa, p, i + 1), i, e.1);
                lemma_set_action_at(unsafe_range(sb, pb, ib + 1), ib, e.1);
            } else {
                lemma_set_action_at(ra.infos, i, e.1);
                lemma_set_action_at(rb.infos, ib, e.1);
            }
        }
    }
}

/// Transparent records (joining type T, such as marks) do not take part in
/// joining: the pass over a buffer gives a transparent record no action,
/// and gives every other record the action it gets when the transparent
/// record is taken out of the buffer; the contexts count the same either
/// way.
pub proof fn lemma_transparent_records_do_not_join(
    infos0: Seq<hb_glyph_info_t>,
    pre: Seq<JoiningType>,
    types: Seq<JoiningType>,
    post: Seq<JoiningType>,
    m: int,
)
    requires
        0 <= m < types.len() <= infos0.len(),
        types[m] == JoiningType::T,
    ensures
        ({
            let a = joined(infos0, pre, types, post);
            let b = joined(infos0.remove(m), pre, types.remove(m), post);
            &&& action_of(a.infos[m]) == ACTION_NONE
            &&& forall|j: int| 0 <= j < types.len() && j != m ==> #[trigger] action_of(a.infos[j]) == action_of(
                b.infos[shifted(j, m)],
            )
        }),
{
    let k = types.len() as int;
    lemma_join_after(infos0, types, initial_joining_state(pre), m, k);
    lemma_join_frame(infos0, types, initial_joining_state(pre), k);
    lemma_join_frame(infos0.remove(m), types.remove(m), initial_joining_state(pre), k - 1);
    assert(types.remove(m).len() == k - 1);
    let ra = join_upto(infos0, types, initial_joining_state(pre), k);
    let rb = join_upto(infos0.remove(m), types.remove(m), initial_joining_state(pre), k - 1);
    match first_joining(post, 0) {
        Some(t) => {
            let e = state_entry(ra.state, t);
            if e.0 != ACTION_NONE && ra.prev is Some {
                lemma_set_action_at(ra.infos, ra.prev->0, e.0);
                lemma_set_action_at(rb.infos, rb.prev->0, e.0);
            }
        },
        None => {},
    }
}

/// A record with a new action keeps its character and general category.
proof fn lemma_with_action_keeps(info: hb_glyph_info_t, a: u8)
    ensures
        with_action(info, a).glyph_id == info.glyph_id,
        with_action(info, a).spec_general_category() == info.spec_general_category(),
        byte2(with_action(info, a).var2) == a,
{
    crate::glyph::lemma_with_byte2(info.var2, a);
}

/// Sets the shaping action of record `i`.
fn set_action(buffer: &mut hb_buffer_t, i: usize, a: u8)
    requires
        old(buffer).wf(),
        i < old(buffer).info@.len(),
    ensures
        final(buffer).wf(),
        final(buffer).same_but_info(old(buffer)),
        final(buffer).scratch_flags == old(buffer).scratch_flags,
        final(buffer).info@ == set_action_at(old(buffer).info@, i as int, a),
{
    let mut g = buffer.info[i];
    g.set_shaper_byte(a);
    buffer.info.set(i, g);
    assert(buffer.info@ =~= set_action_at(old(buffer).info@, i as int, a));
}

/// The joining type of `t` as an index into a row of the state table.
fn type_index(t: JoiningType) -> (r: usize)
    requires
        t != JoiningType::T && t != JoiningType::X,
    ensures
        r == joining_code(t),
        r < 6,
{
    t.to_u8() as usize
}

/// The buffer after the joining pass over its first `i` records, from
/// `orig` and state `state0`, with `state` and `prev` the pass's state and
/// last joining record.
pub open spec fn joins_so_far(
    buffer: hb_buffer_t,
    orig: hb_buffer_t,
    types: Seq<JoiningType>,
    state0: int,
    i: int,
    state: usize,
    prev: Option<usize>,
) -> bool {
    let r = join_upto(orig.info@, types, state0, i);
    &&& buffer.wf()
    &&& buffer.same_but_info(&orig)
    &&& i <= orig.len
    &&& types.len() == orig.len
    &&& buffer.info@.len() == orig.info@.len()
    &&& forall|j: int| 0 <= j < orig.info@.len() ==> (#[trigger] buffer.info@[j]).glyph_id
        == orig.info@[j].glyph_id && buffer.info@[j].spec_general_category()
        == orig.info@[j].spec_general_category()
    &&& r.state == state as int
    &&& r.prev == (match prev {
        Some(p) => Some(p as int),
        None => None,
    })
    &&& r.infos == buffer.info@
    &&& buffer.scratch_flags == (if r.flagged {
        orig.scratch_flags | SCRATCH_HAS_GLYPH_FLAGS
    } else {
        orig.scratch_flags
    })
    &&& state < 7
    &&& match prev {
        Some(p) => p < i,
        None => true,
    }
}

/// One step of the joining pass: record `i`.
fn join_record(
    buffer: &mut hb_buffer_t,
    Ghost(orig): Ghost<hb_buffer_t>,
    Ghost(types): Ghost<Seq<JoiningType>>,
    Ghost(state0): Ghost<int>,
    i: usize,
    state: usize,
    prev: Option<usize>,
) -> (r: (usize, Option<usize>))
    requires
        i < orig.len,
        types == record_joining(orig.info@, orig.len as int),
        joins_so_far(*old(buffer), orig, types, state0, i as int, state, prev),
    ensures
        joins_so_far(*final(buffer), orig, types, state0, i + 1, r.0, r.1),
{
    proof {
        lemma_state_table();
    }
    let ghost r = join_upto(orig.info@, types, state0, i as int);
    let t = get_joining_type(buffer.info[i].glyph_id, buffer.info[i].general_category());
    assert(t == types[i as int]);
    if t == JoiningType::T {
        let ghost before = buffer.info@;
        set_action(buffer, i, ACTION_NONE);
        proof {
            assert forall|j: int| 0 <= j < orig.info@.len() implies (#[trigger] buffer.info@[j]).glyph_id
                == orig.info@[j].glyph_id && buffer.info@[j].spec_general_category()
                == orig.info@[j].spec_general_category() by {
                if j == i {
                    lemma_with_action_keeps(before[j], ACTION_NONE);
                }
            }
        }
        return (state, prev);
    }
    let k = type_index(t);
    let base = (state * 6 + k) * 3;
    let e0 = STATE_TABLE[base];
    let e1 = STATE_TABLE[base + 1];
    let e2 = STATE_TABLE[base + 2];
    assert(STATE_TABLE@[3 * (state * 6 + k) + 2] < 7);
    if e0 != ACTION_NONE {
        if let Some(p) = prev {
            let ghost before = buffer.info@;
            set_action(buffer, p, e0);
            let ghost mid = *buffer;
            buffer.unsafe_to_break(Some(p), Some(i + 1));
            proof {
                if r.flagged {
                    lemma_or_idem(orig.scratch_flags, SCRATCH_HAS_GLYPH_FLAGS);
                }
                assert forall|j: int| 0 <= j < orig.info@.len() implies (#[trigger] buffer.info@[j]).glyph_id
                    == orig.info@[j].glyph_id && buffer.info@[j].spec_general_category()
                    == orig.info@[j].spec_general_category() by {
                    if j == p {
                        lemma_with_action_keeps(before[j], e0);
                    }
                    assert(buffer.info@[j].var2 == mid.info@[j].var2);
                }
            }
        }
    }
    let ghost before = buffer.info@;
    set_action(buffer, i, e1);
    proof {
        assert forall|j: int| 0 <= j < orig.info@.len() implies (#[trigger] buffer.info@[j]).glyph_id
            == orig.info@[j].glyph_id && buffer.info@[j].spec_general_category()
            == orig.info@[j].spec_general_category() by {
            if j == i {
                lemma_with_action_keeps(before[j], e1);
            }
        }
    }
    (e2 as usize, Some(i))
}

/// Picks the positional form of every letter of the buffer: runs the
/// joining state machine over the joining types of the text before the
/// buffer, of the records and of the text after it, and records each
/// record's shaping action in its shaper byte (see `joined`).  The general
/// categories of the context characters are given in `context_categories`,
/// in the order of `buffer.context`.
pub fn arabic_joining(buffer: &mut hb_buffer_t, context_categories: &[[GeneralCategory; 5]; 2])
    requires
        old(buffer).wf(),
    ensures
        final(buffer).wf(),
        final(buffer).same_but_info(old(buffer)),
        final(buffer).info@ == joined(
            old(buffer).info@,
            context_joining(old(buffer).context[0], context_categories[0], old(buffer).context_len[0] as int),
            record_joining(old(buffer).info@, old(buffer).len as int),
            context_joining(old(buffer).context[1], context_categories[1], old(buffer).context_len[1] as int),
        ).infos,
        final(buffer).scratch_flags == (if joined(
            old(buffer).info@,
            context_joining(old(buffer).context[0], context_categories[0], old(buffer).context_len[0] as int),
            record_joining(old(buffer).info@, old(buffer).len as int),
            context_joining(old(buffer).context[1], context_categories[1], old(buffer).context_len[1] as int),
        ).flagged {
            old(buffer).scratch_flags | SCRATCH_HAS_GLYPH_FLAGS
        } else {
            old(buffer).scratch_flags
        }),
{
    let ghost orig = *buffer;
    let ghost pre = context_joining(orig.context[0], context_categories[0], orig.context_len[0] as int);
    let ghost types = record_joining(orig.info@, orig.len as int);
    let ghost post = context_joining(orig.context[1], context_categories[1], orig.context_len[1] as int);
    proof {
        lemma_state_table();
    }
    // The text before the buffer.
    let mut state: usize = 0;
    let n0 = buffer.context_len[0];
    let mut i: usize = 0;
    while i < n0
        invariant_except_break
            n0 == orig.context_len[0],
            n0 <= 5,
            i <= n0,
            *buffer == orig,
            pre == context_joining(orig.context[0], context_categories[0], n0 as int),
            state == 0,
            first_joining(pre, 0) == first_joining(pre, i as int),
        ensures
            *buffer == orig,
            state as int == initial_joining_state(pre),
            state < 7,
        decreases n0 - i,
    {
        let c = buffer.context[0][i];
        let t = get_joining_type(c as u32, context_categories[0][i]);
        if t == JoiningType::T {
            i = i + 1;
            continue;
        }
        let k = type_index(t);
        state = STATE_TABLE[k * 3 + 2] as usize;
        assert(STATE_TABLE@[3 * (k as int) + 2] < 7);
        break;
    }
    // The records.
    let len = buffer.len;
    let mut prev: Option<usize> = None;
    let mut i: usize = 0;
    while i < len
        invariant
            len == orig.len,
            i <= len,
            types == record_joining(orig.info@, orig.len as int),
            joins_so_far(*buffer, orig, types, initial_joining_state(pre), i as int, state, prev),
        decreases len - i,
    {
        let r = join_record(buffer, Ghost(orig), Ghost(types), Ghost(initial_joining_state(pre)), i, state, prev);
        state = r.0;
        prev = r.1;
        i = i + 1;
    }
    // The text after the buffer.
    let n1 = buffer.context_len[1];
    let mut i: usize = 0;
    while i < n1
        invariant_except_break
            n1 == orig.context_len[1],
            n1 <= 5,
            i <= n1,
            buffer.wf(),
            buffer.same_but_info(&orig),
            post == context_joining(orig.context[1], context_categories[1], n1 as int),
            first_joining(post, 0) == first_joining(post, i as int),
            types == record_joining(orig.info@, orig.len as int),
            joins_so_far(*buffer, orig, types, initial_joining_state(pre), len as int, state, prev),
            len == orig.len,
        ensures
            buffer.wf(),
            buffer.same_but_info(&orig),
            buffer.info@ == joined(orig.info@, pre, types, post).infos,
            buffer.scratch_flags == (if joined(orig.info@, pre, types, post).flagged {
                orig.scratch_flags | SCRATCH_HAS_GLYPH_FLAGS
            } else {
                orig.scratch_flags
            }),
        decreases n1 - i,
    {
        let c = buffer.context[1][i];
        let t = get_joining_type(c as u32, context_categories[1][i]);
        if t == JoiningType::T {
            i = i + 1;
            continue;
        }
        let k = type_index(t);
        let e0 = STATE_TABLE[(state * 6 + k) * 3];
        if e0 != ACTION_NONE {
            if let Some(p) = prev {
                set_action(buffer, p, e0);
            }
        }
        break;
    }
}


/// The modifier combining marks (Unicode TR 53) that move to the front of
/// their mark sequence.
pub const MODIFIER_COMBINING_MARKS: [u32; 9] = [
    0x0654, 0x0655, 0x0658, 0x06DC, 0x06E3, 0x06E7, 0x06E8, 0x08D3, 0x08F3,
];

/// The most marks that one move carries.
pub const MAX_COMBINING_MARKS: usize = 32;

/// Whether `u` is a modifier combining mark.
pub open spec fn is_modifier_mark(u: u32) -> bool {
    exists|k: int| 0 <= k < 9 && #[trigger] MODIFIER_COMBINING_MARKS@[k] == u
}

fn is_modifier_mark_exec(u: u32) -> (r: bool)
    ensures
        r == is_modifier_mark(u),
{
    let mut k: usize = 0;
    while k < 9
        invariant
            k <= 9,
            forall|x: int| 0 <= x < k ==> #[trigger] MODIFIER_COMBINING_MARKS@[x] != u,
        decreases 9 - k,
    {
        if MODIFIER_COMBINING_MARKS[k] == u {
            return true;
        }
        k = k + 1;
    }
    false
}

/// The modified combining class of a record.
pub open spec fn mcc(info: hb_glyph_info_t) -> u8 {
    info.spec_modified_combining_class()
}

/// The first index from `i` on, before `end`, of a record whose combining
/// class is at least `cc`.
pub open spec fn skip_below(s: Seq<hb_glyph_info_t>, i: int, end: int, cc: u8) -> int
    decreases end - i,
{
    if i >= end || mcc(s[i]) >= cc {
        i
    } else {
        skip_below(s, i + 1, end, cc)
    }
}

/// The end of the run from `j` on, before `end`, of modifier marks of
/// combining class `cc`.
pub open spec fn mark_run_end(s: Seq<hb_glyph_info_t>, j: int, end: int, cc: u8) -> int
    decreases end - j,
{
    if j < end && mcc(s[j]) == cc && is_modifier_mark(s[j].glyph_id) {
        mark_run_end(s, j + 1, end, cc)
    } else {
        j
    }
}

/// `info` with modified combining class `c` if it is a mark.
pub open spec fn with_mcc(info: hb_glyph_info_t, c: u8) -> hb_glyph_info_t {
    if info.spec_is_unicode_mark() {
        hb_glyph_info_t {
            var2: (info.var2 & 0xFFFF_0000u32) | ((((c as u16) << 8u16) | (lo16(info.var2) & 0xFF)) as u32),
            ..info
        }
    } else {
        info
    }
}

/// `s` with the marks from `a` to before `b` given combining class `c`.
pub open spec fn renumbered(s: Seq<hb_glyph_info_t>, a: int, b: int, c: u8) -> Seq<hb_glyph_info_t> {
    Seq::new(s.len(), |k: int| if a <= k < b { with_mcc(s[k], c) } else { s[k] })
}

/// The class that moved marks of class `cc` get: 22 for 220, 26 for 230;
/// smaller than every Arabic class, so that the marks stay sorted.
pub open spec fn moved_class(cc: u8) -> u8 {
    if cc == 220 {
        22
    } else {
        26
    }
}

/// One pass of the mark reordering for class `cc`, from `start` with the
/// scan at `i`: the first mark of class at least `cc`; if it has class `cc`
/// and begins a run of modifier marks of that class, the run moves to
/// `start` (after the clusters of `start` to the run's end are merged) and
/// gets the moved class.
pub open spec fn mark_pass(b0: hb_buffer_t, b1: hb_buffer_t, start: int, i: int, end: int, cc: u8) -> bool {
    let s = b0.info@;
    let i1 = skip_below(s, i, end, cc);
    let j = mark_run_end(s, i1, end, cc);
    if i1 < end && mcc(s[i1]) == cc && i1 < j {
        exists|m: hb_buffer_t|
            merged_or_same(b0, m, start, j) && with_records(
                m,
                b1,
                renumbered(block_moved(m.info@, start, i1, j), start, start + (j - i1), moved_class(cc)),
            )
    } else {
        with_records(b0, b1, b0.info@)
    }
}

/// Where the next pass starts, after the pass for `cc`.
pub open spec fn pass_next_start(s: Seq<hb_glyph_info_t>, start: int, i: int, end: int, cc: u8) -> int {
    let i1 = skip_below(s, i, end, cc);
    let j = mark_run_end(s, i1, end, cc);
    if i1 < end && mcc(s[i1]) == cc && i1 < j {
        start + (j - i1)
    } else {
        start
    }
}

/// Where the next pass scans from, after the pass for `cc`.
pub open spec fn pass_next_i(s: Seq<hb_glyph_info_t>, start: int, i: int, end: int, cc: u8) -> int {
    let i1 = skip_below(s, i, end, cc);
    let j = mark_run_end(s, i1, end, cc);
    if i1 < end && mcc(s[i1]) == cc && i1 < j {
        j
    } else {
        i1
    }
}

/// No run of modifier marks of class 220 or 230 between `start` and `end`
/// is longer than `MAX_COMBINING_MARKS`.
pub open spec fn mark_runs_fit(s: Seq<hb_glyph_info_t>, start: int, end: int) -> bool {
    forall|p: int|
        start <= p < end ==> #[trigger] mark_run_end(s, p, end, 220) - p <= 32 && mark_run_end(
            s,
            p,
            end,
            230,
        ) - p <= 32
}

proof fn lemma_skip_below(s: Seq<hb_glyph_info_t>, i: int, end: int, cc: u8)
    requires
        i <= end,
    ensures
        i <= skip_below(s, i, end, cc) <= end,
        skip_below(s, i, end, cc) < end ==> mcc(s[skip_below(s, i, end, cc)]) >= cc,
    decreases end - i,
{
    if i < end && mcc(s[i]) < cc {
        lemma_skip_below(s, i + 1, end, cc);
    }
}

proof fn lemma_mark_run_end(s: Seq<hb_glyph_info_t>, j: int, end: int, cc: u8)
    requires
        j <= end,
    ensures
        j <= mark_run_end(s, j, end, cc) <= end,
    decreases end - j,
{
    if j < end && mcc(s[j]) == cc && is_modifier_mark(s[j].glyph_id) {
        lemma_mark_run_end(s, j + 1, end, cc);
    }
}

/// The scans depend only on the characters and properties of the records.
proof fn lemma_scans_same(s: Seq<hb_glyph_info_t>, t: Seq<hb_glyph_info_t>, p: int, end: int, cc: u8)
    requires
        0 <= p <= end <= s.len(),
        s.len() == t.len(),
        forall|k: int| p <= k < end ==> (#[trigger] t[k]).glyph_id == s[k].glyph_id && t[k].var2 == s[k].var2,
    ensures
        skip_below(t, p, end, cc) == skip_below(s, p, end, cc),
        mark_run_end(t, p, end, cc) == mark_run_end(s, p, end, cc),
    decreases end - p,
{
    if p < end {
        lemma_scans_same(s, t, p + 1, end, cc);
    }
}

/// Merging keeps every record's character and properties.
proof fn lemma_merge_keeps_text(b0: hb_buffer_t, b1: hb_buffer_t, s: int, e: int)
    requires
        merged_or_same(b0, b1, s, e),
    ensures
        b1.info@.len() == b0.info@.len(),
        forall|k: int| 0 <= k < b0.info@.len() ==> (#[trigger] b1.info@[k]).glyph_id == b0.info@[k].glyph_id
            && b1.info@[k].var2 == b0.info@[k].var2,
{
}

/// Gives the marks of `start..start + count` the moved class for `cc`.
fn renumber_marks(buffer: &mut hb_buffer_t, start: usize, count: usize, cc: u8)
    requires
        old(buffer).wf(),
        start + count <= old(buffer).info@.len(),
    ensures
        final(buffer).wf(),
        with_records(*old(buffer), *final(buffer), renumbered(old(buffer).info@, start as int, start + count, moved_class(cc))),
{
    let c: u8 = if cc == 220 { 22 } else { 26 };
    let ghost s = buffer.info@;
    let mut k = start;
    assert(buffer.info@ =~= renumbered(s, start as int, start as int, c));
    while k < start + count
        invariant
            start <= k <= start + count <= s.len(),
            buffer.wf(),
            with_records(*old(buffer), *buffer, renumbered(s, start as int, k as int, c)),
            s == old(buffer).info@,
            c == moved_class(cc),
        decreases start + count - k,
    {
        let mut g = buffer.info[k];
        g.set_modified_combining_class(c);
        buffer.info.set(k, g);
        k = k + 1;
        assert(buffer.info@ =~= renumbered(s, start as int, k as int, c));
    }
}

/// One pass of the mark reordering (see `mark_pass`); returns the next
/// start and scan position, and whether the scan reached the end.
fn reorder_marks_pass(buffer: &mut hb_buffer_t, start: usize, i0: usize, end: usize, cc: u8) -> (r: (usize, usize, bool))
    requires
        old(buffer).wf(),
        start <= i0 <= end <= old(buffer).len,
        mark_runs_fit(old(buffer).info@, i0 as int, end as int),
        cc == 220 || cc == 230,
    ensures
        final(buffer).wf(),
        mark_pass(*old(buffer), *final(buffer), start as int, i0 as int, end as int, cc),
        r.0 == pass_next_start(old(buffer).info@, start as int, i0 as int, end as int, cc),
        r.1 == pass_next_i(old(buffer).info@, start as int, i0 as int, end as int, cc),
        r.2 == (skip_below(old(buffer).info@, i0 as int, end as int, cc) == end),
        r.0 <= r.1 <= end,
{
    let ghost s = buffer.info@;
    let ghost b0 = *buffer;
    let mut i = i0;
    while i < end && buffer.info[i].modified_combining_class() < cc
        invariant
            *buffer == b0,
            s == b0.info@,
            i0 <= i <= end <= b0.len,
            b0.len <= s.len(),
            skip_below(s, i as int, end as int, cc) == skip_below(s, i0 as int, end as int, cc),
        decreases end - i,
    {
        i = i + 1;
    }
    proof {
        lemma_skip_below(s, i0 as int, end as int, cc);
    }
    if i == end {
        return (start, i, true);
    }
    if buffer.info[i].modified_combining_class() > cc {
        return (start, i, false);
    }
    let mut j = i;
    while j < end && buffer.info[j].modified_combining_class() == cc && is_modifier_mark_exec(buffer.info[j].glyph_id)
        invariant
            *buffer == b0,
            s == b0.info@,
            i <= j <= end <= b0.len,
            b0.len <= s.len(),
            mark_run_end(s, j as int, end as int, cc) == mark_run_end(s, i as int, end as int, cc),
        decreases end - j,
    {
        j = j + 1;
    }
    if i == j {
        return (start, i, false);
    }
    proof {
        assert(mark_run_end(s, i as int, end as int, 220) - i <= 32 && mark_run_end(s, i as int, end as int, 230) - i <= 32);
    }
    let ghost mid0 = *buffer;
    merge_range(buffer, start, j);
    let ghost m = *buffer;
    move_block_records(buffer, start, i, j);
    renumber_marks(buffer, start, j - i, cc);
    proof {
        assert(with_records(m, *buffer, renumbered(block_moved(m.info@, start as int, i as int, j as int), start as int, start + (j - i), moved_class(cc))));
    }
    (start + (j - i), j, false)
}

/// Moves the modifier combining marks (see `MODIFIER_COMBINING_MARKS`) of
/// classes 220 and then 230 in `start..end` to the front of the mark
/// sequence, merging the clusters they cross, and renumbers them so that
/// the sequence stays sorted (see `mark_pass`).
pub fn reorder_marks_arabic(start: usize, end: usize, buffer: &mut hb_buffer_t)
    requires
        old(buffer).wf(),
        start <= end <= old(buffer).len,
        mark_runs_fit(old(buffer).info@, start as int, end as int),
    ensures
        final(buffer).wf(),
        exists|mid: hb_buffer_t|
            #[trigger] mark_pass(*old(buffer), mid, start as int, start as int, end as int, 220) && (
            if skip_below(old(buffer).info@, start as int, end as int, 220) == end {
                with_records(mid, *final(buffer), mid.info@)
            } else {
                mark_pass(
                    mid,
                    *final(buffer),
                    pass_next_start(old(buffer).info@, start as int, start as int, end as int, 220),
                    pass_next_i(old(buffer).info@, start as int, start as int, end as int, 220),
                    end as int,
                    230,
                )
            }),
{
    let ghost b0 = *buffer;
    let r = reorder_marks_pass(buffer, start, start, end, 220);
    let ghost mid = *buffer;
    if r.2 {
        assert(with_records(mid, *buffer, mid.info@));
        return;
    }
    proof {
        let s = b0.info@;
        let t = mid.info@;
        assert forall|p: int| r.1 <= p < end implies #[trigger] mark_run_end(t, p, end as int, 220) - p <= 32 && mark_run_end(t, p, end as int, 230) - p <= 32 by {
            lemma_scans_same_tail(b0, mid, start as int, end as int, r.1 as int);
            lemma_scans_same(s, t, p, end as int, 220);
            lemma_scans_same(s, t, p, end as int, 230);
        }
    }
    let _ = reorder_marks_pass(buffer, r.0, r.1, end, 230);
}

/// After the first pass the records from its scan position on keep their
/// characters and properties.
proof fn lemma_scans_same_tail(b0: hb_buffer_t, mid: hb_buffer_t, start: int, end: int, i: int)
    requires
        mark_pass(b0, mid, start, start, end, 220),
        i == pass_next_i(b0.info@, start, start, end, 220),
        0 <= start <= end <= b0.info@.len(),
    ensures
        mid.info@.len() == b0.info@.len(),
        forall|k: int| i <= k < end ==> (#[trigger] mid.info@[k]).glyph_id == b0.info@[k].glyph_id && mid.info@[k].var2 == b0.info@[k].var2,
{
    let s = b0.info@;
    lemma_skip_below(s, start, end, 220);
    let i1 = skip_below(s, start, end, 220);
    lemma_mark_run_end(s, i1, end, 220);
    let j = mark_run_end(s, i1, end, 220);
    if i1 < end && mcc(s[i1]) == 220 && i1 < j {
        let m = choose|m: hb_buffer_t|
            merged_or_same(b0, m, start, j) && with_records(
                m,
                mid,
                renumbered(block_moved(m.info@, start, i1, j), start, start + (j - i1), moved_class(220)),
            );
        lemma_merge_keeps_text(b0, m, start, j);
        let bm = block_moved(m.info@, start, i1, j);
        assert(mid.info@ == renumbered(bm, start, start + (j - i1), moved_class(220)));
        assert forall|k: int| i <= k < end implies (#[trigger] mid.info@[k]).glyph_id == b0.info@[k].glyph_id && mid.info@[k].var2 == b0.info@[k].var2 by {
            assert(bm[k] == m.info@[k]);
            assert(mid.info@[k] == bm[k]);
        }
    }
}


/// Whether a character of category `gc` is part of a word for stretching:
/// letters (but cased ones), marks, numbers, symbols but punctuation-like
/// ones, and unassigned and private-use characters.
pub open spec fn spec_is_word_category(gc: GeneralCategory) -> bool {
    gc == GeneralCategory::Unassigned || gc == GeneralCategory::PrivateUse || gc
        == GeneralCategory::ModifierLetter || gc == GeneralCategory::OtherLetter || gc
        == GeneralCategory::SpacingMark || gc == GeneralCategory::EnclosingMark || gc
        == GeneralCategory::NonspacingMark || gc == GeneralCategory::DecimalNumber || gc
        == GeneralCategory::LetterNumber || gc == GeneralCategory::OtherNumber || gc
        == GeneralCategory::CurrencySymbol || gc == GeneralCategory::ModifierSymbol || gc
        == GeneralCategory::MathSymbol || gc == GeneralCategory::OtherSymbol
}

/// The mask of the general categories that are part of a word.
pub const WORD_CATEGORIES: u32 = 0x0780_FCCC;

/// Whether a character of category `gc` is part of a word for stretching.
pub fn is_word_category(gc: GeneralCategory) -> (r: bool)
    ensures
        r == spec_is_word_category(gc),
{
    let g = gc.to_rb();
    proof {
        crate::unicode::lemma_gc_code_roundtrip(gc);
        assert(g < 32 ==> (((1u32 << g) & 0x0780_FCCCu32) != 0 <==> (g == 2 || g == 3 || g == 6
            || g == 7 || g == 10 || g == 11 || g == 12 || g == 13 || g == 14 || g == 15 || g == 23
            || g == 24 || g == 25 || g == 26))) by (bit_vector);
    }
    (rb_flag_unsafe(g) & WORD_CATEGORIES) != 0
}

/// Whether a shaping action is a stretching piece.
pub fn is_stch_action(action: u8) -> (r: bool)
    ensures
        r == (action == ACTION_STRETCHING_FIXED || action == ACTION_STRETCHING_REPEATING),
{
    action == ACTION_STRETCHING_FIXED || action == ACTION_STRETCHING_REPEATING
}

} // verus!
