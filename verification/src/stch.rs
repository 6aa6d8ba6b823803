//! Stretching of Syriac abbreviation marks (the `stch` feature): each run of
//! stretching pieces is widened to cover the word it sits on, by repeating
//! its repeating pieces.
//!
//! The arithmetic follows the shaper's `i32` arithmetic; the contracts ask
//! that no step of it overflows (see `stch_ok`).

use vstd::prelude::*;
use crate::buffer::{hb_buffer_t, resized, flagged_interior, min_cluster, with_info_pos};
use crate::glyph::{
    hb_glyph_info_t, GlyphPosition, byte2, zero_info, zero_pos, UNSAFE_TO_BREAK, UNSAFE_TO_CONCAT,
    UPROPS_IGNORABLE, SCRATCH_HAS_GLYPH_FLAGS,
};
use crate::arabic::{ACTION_STRETCHING_FIXED, ACTION_STRETCHING_REPEATING, spec_is_word_category};

verus! {

/// The scratch flag that marks a buffer with stretching pieces.
pub const SCRATCH_HAS_STCH: u32 = 0x01000000;

/// Whether a value fits an `i32`.
pub open spec fn fits(x: int) -> bool {
    i32::MIN <= x <= i32::MAX
}

/// Whether a record is a stretching piece.
pub open spec fn is_stch(info: hb_glyph_info_t) -> bool {
    byte2(info.var2) == ACTION_STRETCHING_FIXED || byte2(info.var2) == ACTION_STRETCHING_REPEATING
}

/// Whether a record is a repeating stretching piece.
pub open spec fn is_repeating(info: hb_glyph_info_t) -> bool {
    byte2(info.var2) == ACTION_STRETCHING_REPEATING
}

/// Whether a record before a stretch belongs to the word it covers.
pub open spec fn in_word(info: hb_glyph_info_t) -> bool {
    !is_stch(info) && ((info.spec_unicode_props() & UPROPS_IGNORABLE != 0 && !info.spec_is_ligated())
        || spec_is_word_category(info.spec_general_category()))
}

/// The start of the run of stretching pieces that ends at `e`.
pub open spec fn run_start(s: Seq<hb_glyph_info_t>, e: int) -> int
    decreases e,
{
    if e > 0 && is_stch(s[e - 1]) {
        run_start(s, e - 1)
    } else {
        e
    }
}

/// The start of the word before `st` that a stretch at `st` covers.
pub open spec fn context_start(s: Seq<hb_glyph_info_t>, st: int) -> int
    decreases st,
{
    if st > 0 && in_word(s[st - 1]) {
        context_start(s, st - 1)
    } else {
        st
    }
}

/// The advance widths of the fixed pieces of `s[k..e]`.
pub open spec fn fixed_width(s: Seq<hb_glyph_info_t>, a: Seq<i32>, k: int, e: int) -> int
    decreases e - k,
{
    if k >= e {
        0
    } else {
        fixed_width(s, a, k + 1, e) + (if is_repeating(s[k]) { 0int } else { a[k] as int })
    }
}

/// The advance widths of the repeating pieces of `s[k..e]`.
pub open spec fn repeating_width(s: Seq<hb_glyph_info_t>, a: Seq<i32>, k: int, e: int) -> int
    decreases e - k,
{
    if k >= e {
        0
    } else {
        repeating_width(s, a, k + 1, e) + (if is_repeating(s[k]) { a[k] as int } else { 0int })
    }
}

/// The number of repeating pieces of `s[k..e]`.
pub open spec fn repeating_count(s: Seq<hb_glyph_info_t>, k: int, e: int) -> int
    decreases e - k,
{
    if k >= e {
        0
    } else {
        repeating_count(s, k + 1, e) + (if is_repeating(s[k]) { 1int } else { 0int })
    }
}

/// The advances of the positions `q[k..st]`.
pub open spec fn word_width(q: Seq<GlyphPosition>, k: int, st: int) -> int
    decreases st - k,
{
    if k >= st {
        0
    } else {
        word_width(q, k + 1, st) + q[k].x_advance
    }
}

/// How a run of pieces fills a width: with `sign` the sign of the font's
/// scale, `wt` the width to fill, `wf` the fixed pieces' width, `wr` the
/// repeating pieces' width and `nr` their number, the number of extra
/// copies of each repeating piece and by how much neighbouring copies
/// overlap.
pub open spec fn fit(sign: int, wt: int, wf: int, wr: int, nr: int) -> (int, int) {
    let rem = sign * (wt - wf);
    let rep = sign * wr;
    let c0 = if rem > rep && rep > 0 { rem / rep - 1 } else { 0 };
    let shortfall = rem - rep * (c0 + 1);
    if shortfall > 0 && nr > 0 {
        let c = c0 + 1;
        let excess = (c + 1) * sign * wr - rem;
        (c, if excess > 0 { excess / (c * nr) } else { 0 })
    } else {
        (c0, 0)
    }
}

/// Every step of `fit` stays within `i32`.
pub open spec fn fit_ok(sign: int, wt: int, wf: int, wr: int, nr: int) -> bool {
    let d = wt - wf;
    let rem = sign * d;
    let rep = sign * wr;
    let c0 = if rem > rep && rep > 0 { rem / rep - 1 } else { 0 };
    let shortfall = rem - rep * (c0 + 1);
    let c = c0 + 1;
    &&& fits(d) && fits(rem) && fits(rep)
    &&& fits(rep * (c0 + 1)) && fits(shortfall)
    &&& (shortfall > 0 && nr > 0) ==> {
        &&& fits(c) && fits(c + 1) && fits((c + 1) * sign) && fits((c + 1) * sign * wr)
        &&& fits((c + 1) * sign * wr - rem)
        &&& fits(c * nr)
    }
}

/// The run of pieces that ends at `e` in `s`, with positions `q` and
/// advances `a`: its start, the start of the word it covers, and how it
/// fills the word (`fit`).
pub open spec fn run_fit(s: Seq<hb_glyph_info_t>, q: Seq<GlyphPosition>, a: Seq<i32>, sign: int, e: int) -> (int, int) {
    let st = run_start(s, e);
    let ctx = context_start(s, st);
    fit(sign, word_width(q, ctx, st), fixed_width(s, a, st, e), repeating_width(s, a, st, e), repeating_count(s, st, e))
}

/// The x offset after the copies of the pieces `s[k..e]` of a run, each
/// repeating piece `copies + 1` times, neighbouring copies overlapping by
/// `overlap`.
pub open spec fn offset_after(s: Seq<hb_glyph_info_t>, a: Seq<i32>, k: int, e: int, copies: int, overlap: int) -> int
    decreases e - k,
{
    if k >= e {
        0
    } else {
        let rep = if is_repeating(s[k]) { copies + 1 } else { 1 };
        offset_after(s, a, k + 1, e, copies, overlap) - rep * a[k] + (rep - 1) * overlap
    }
}

/// Every step of the arithmetic for the run that ends at `e` stays within
/// `i32`: the running sums of widths (taken from the end), the fit, the
/// number of extra glyphs, and every x offset given to a copy.
pub open spec fn run_ok(s: Seq<hb_glyph_info_t>, q: Seq<GlyphPosition>, a: Seq<i32>, sign: int, e: int) -> bool {
    let st = run_start(s, e);
    let ctx = context_start(s, st);
    let f = run_fit(s, q, a, sign, e);
    let copies = f.0;
    let overlap = f.1;
    &&& forall|k: int| st <= k < e ==> fits(#[trigger] fixed_width(s, a, k, e))
    &&& forall|k: int| st <= k < e ==> fits(#[trigger] repeating_width(s, a, k, e))
    &&& forall|k: int| st <= k < e ==> fits(#[trigger] repeating_count(s, k, e))
    &&& forall|k: int| ctx <= k < st ==> fits(#[trigger] word_width(q, k, st))
    &&& fit_ok(sign, word_width(q, ctx, st), fixed_width(s, a, st, e), repeating_width(s, a, st, e), repeating_count(s, st, e))
    &&& fits(copies * repeating_count(s, st, e))
    &&& forall|k: int, m: int|
        st < k <= e && 1 <= m <= times(s[k - 1], copies) ==> {
            &&& fits(#[trigger] copy_offset(offset_after(s, a, k, e, copies, overlap), a[k - 1] as int, m, overlap))
            &&& m > 1 ==> fits(copy_offset(offset_after(s, a, k, e, copies, overlap), a[k - 1] as int, m, overlap) - overlap)
        }
}

/// The x offset of copy `m` (from 1) of a piece of width `w`, after the
/// offset `base` of the pieces after it.
pub open spec fn copy_offset(base: int, w: int, m: int, overlap: int) -> int {
    base - m * w + (m - 1) * overlap
}

/// The number of extra glyphs that the runs of `s[..e]` need, and whether
/// all their arithmetic stays within `i32`.
pub open spec fn extra_glyphs(s: Seq<hb_glyph_info_t>, q: Seq<GlyphPosition>, a: Seq<i32>, sign: int, e: int) -> (int, bool)
    decreases e,
{
    if e <= 0 {
        (0, true)
    } else if !is_stch(s[e - 1]) {
        extra_glyphs(s, q, a, sign, e - 1)
    } else {
        let st = run_start(s, e);
        let (copies, _) = run_fit(s, q, a, sign, e);
        let rest = if 0 <= st < e { extra_glyphs(s, q, a, sign, st) } else { (0, false) };
        (rest.0 + copies * repeating_count(s, st, e), rest.1 && run_ok(s, q, a, sign, e))
    }
}

pub proof fn lemma_run_start(s: Seq<hb_glyph_info_t>, e: int)
    requires
        0 <= e,
    ensures
        0 <= run_start(s, e) <= e,
        forall|k: int| run_start(s, e) <= k < e ==> is_stch(#[trigger] s[k]),
        run_start(s, e) == 0 || !is_stch(s[run_start(s, e) - 1]),
    decreases e,
{
    if e > 0 && is_stch(s[e - 1]) {
        lemma_run_start(s, e - 1);
    }
}

pub proof fn lemma_context_start(s: Seq<hb_glyph_info_t>, st: int)
    requires
        0 <= st,
    ensures
        0 <= context_start(s, st) <= st,
        forall|k: int| context_start(s, st) <= k < st ==> in_word(#[trigger] s[k]),
    decreases st,
{
    if st > 0 && in_word(s[st - 1]) {
        lemma_context_start(s, st - 1);
    }
}

/// How a run fills a width (see `fit`), in the shaper's `i32` arithmetic.
fn fit_exec(sign: i32, wt: i32, wf: i32, wr: i32, nr: i32) -> (r: (i32, i32))
    requires
        -1 <= sign <= 1,
        fit_ok(sign as int, wt as int, wf as int, wr as int, nr as int),
    ensures
        r.0 == fit(sign as int, wt as int, wf as int, wr as int, nr as int).0,
        r.1 == fit(sign as int, wt as int, wf as int, wr as int, nr as int).1,
{
    let mut n_copies: i32 = 0;
    let w_remaining = wt - wf;
    let rem = sign * w_remaining;
    let rep = sign * wr;
    if rem > rep && rep > 0 {
        assert(rem / rep >= 1) by (nonlinear_arith)
            requires
                rem > rep > 0,
        ;
        n_copies = rem / rep - 1;
    }
    let mut extra_repeat_overlap: i32 = 0;
    let shortfall = rem - rep * (n_copies + 1);
    if shortfall > 0 && nr > 0 {
        n_copies = n_copies + 1;
        let excess = (n_copies + 1) * sign * wr - rem;
        if excess > 0 {
            let d = n_copies * nr;
            assert(d >= 1) by (nonlinear_arith)
                requires
                    n_copies >= 1,
                    nr >= 1,
                    d == n_copies * nr,
            ;
            extra_repeat_overlap = excess / d;
        }
    }
    (n_copies, extra_repeat_overlap)
}

pub proof fn lemma_fit_nonneg(sign: int, wt: int, wf: int, wr: int, nr: int)
    ensures
        fit(sign, wt, wf, wr, nr).0 >= 0,
{
    let rem = sign * (wt - wf);
    let rep = sign * wr;
    if rem > rep && rep > 0 {
        assert(rem / rep >= 1) by (nonlinear_arith)
            requires
                rem > rep > 0,
        ;
    }
}

pub proof fn lemma_repeating_count_nonneg(s: Seq<hb_glyph_info_t>, k: int, e: int)
    ensures
        repeating_count(s, k, e) >= 0,
    decreases e - k,
{
    if k < e {
        lemma_repeating_count_nonneg(s, k + 1, e);
    }
}

pub proof fn lemma_extra_glyphs_nonneg(s: Seq<hb_glyph_info_t>, q: Seq<GlyphPosition>, a: Seq<i32>, sign: int, e: int)
    ensures
        extra_glyphs(s, q, a, sign, e).0 >= 0,
    decreases e,
{
    if e > 0 {
        if !is_stch(s[e - 1]) {
            lemma_extra_glyphs_nonneg(s, q, a, sign, e - 1);
        } else {
            let st = run_start(s, e);
            lemma_run_start(s, e);
            let c = run_fit(s, q, a, sign, e).0;
            let nr = repeating_count(s, st, e);
            lemma_fit_nonneg(sign, word_width(q, context_start(s, st), st), fixed_width(s, a, st, e),
                repeating_width(s, a, st, e), nr);
            lemma_repeating_count_nonneg(s, st, e);
            assert(c * nr >= 0) by (nonlinear_arith)
                requires
                    c >= 0,
                    nr >= 0,
            ;
            if 0 <= st < e {
                lemma_extra_glyphs_nonneg(s, q, a, sign, st);
            }
        }
    }
}

/// Whether a record is a stretching piece.
fn is_stch_exec(info: &hb_glyph_info_t) -> (r: bool)
    ensures
        r == is_stch(*info),
{
    crate::arabic::is_stch_action(info.shaper_byte())
}

/// Whether a record before a stretch belongs to the word it covers.
fn in_word_exec(info: &hb_glyph_info_t) -> (r: bool)
    ensures
        r == in_word(*info),
{
    !is_stch_exec(info) && (info.is_default_ignorable() || crate::arabic::is_word_category(info.general_category()))
}

/// The number of extra glyphs that stretching needs (see `extra_glyphs`).
fn measure(buffer: &hb_buffer_t, a: &[i32], sign: i32) -> (extra: usize)
    requires
        buffer.wf(),
        -1 <= sign <= 1,
        a@.len() >= buffer.len,
        extra_glyphs(buffer.info@, buffer.pos@, a@, sign as int, buffer.len as int).1,
        buffer.len + extra_glyphs(buffer.info@, buffer.pos@, a@, sign as int, buffer.len as int).0 <= usize::MAX,
    ensures
        extra == extra_glyphs(buffer.info@, buffer.pos@, a@, sign as int, buffer.len as int).0,
{
    let ghost s = buffer.info@;
    let ghost q = buffer.pos@;
    let ghost total = extra_glyphs(s, q, a@, sign as int, buffer.len as int).0;
    let mut extra: usize = 0;
    let mut i = buffer.len;
    while i != 0
        invariant
            buffer.wf(),
            s == buffer.info@,
            q == buffer.pos@,
            -1 <= sign <= 1,
            i <= buffer.len <= a@.len(),
            buffer.len + total <= usize::MAX,
            extra + extra_glyphs(s, q, a@, sign as int, i as int).0 == total,
            extra_glyphs(s, q, a@, sign as int, i as int).1,
        decreases i,
    {
        if !is_stch_exec(&buffer.info[i - 1]) {
            i = i - 1;
            continue;
        }
        let end = i;
        let ghost st = run_start(s, end as int);
        proof {
            lemma_run_start(s, end as int);
            assert(run_ok(s, q, a@, sign as int, end as int));
        }
        let mut w_fixed: i32 = 0;
        let mut w_repeating: i32 = 0;
        let mut n_repeating: i32 = 0;
        while i != 0 && is_stch_exec(&buffer.info[i - 1])
            invariant
                buffer.wf(),
                s == buffer.info@,
                end <= buffer.len <= a@.len(),
                st <= i <= end,
                st == run_start(s, end as int),
                run_start(s, i as int) == st,
                run_ok(s, q, a@, sign as int, end as int),
                w_fixed == fixed_width(s, a@, i as int, end as int),
                w_repeating == repeating_width(s, a@, i as int, end as int),
                n_repeating == repeating_count(s, i as int, end as int),
            decreases i,
        {
            proof {
                lemma_run_start(s, i - 1);
            }
            i = i - 1;
            let width = a[i];
            proof {
                assert(fits(fixed_width(s, a@, i as int, end as int)));
                assert(fits(repeating_width(s, a@, i as int, end as int)));
                assert(fits(repeating_count(s, i as int, end as int)));
            }
            if buffer.info[i].shaper_byte() == crate::arabic::ACTION_STRETCHING_FIXED {
                w_fixed = w_fixed + width;
            } else {
                w_repeating = w_repeating + width;
                n_repeating = n_repeating + 1;
            }
        }
        assert(i == st);
        let start = i;
        let ghost ctx = context_start(s, st);
        proof {
            lemma_context_start(s, st);
        }
        let mut context = i;
        let mut w_total: i32 = 0;
        while context != 0 && in_word_exec(&buffer.info[context - 1])
            invariant
                buffer.wf(),
                s == buffer.info@,
                q == buffer.pos@,
                ctx <= context <= start,
                start == st,
                st <= end <= buffer.len,
                st == run_start(s, end as int),
                ctx == context_start(s, st),
                context_start(s, context as int) == ctx,
                run_ok(s, q, a@, sign as int, end as int),
                w_total == word_width(q, context as int, start as int),
            decreases context,
        {
            proof {
                lemma_context_start(s, context - 1);
            }
            context = context - 1;
            proof {
                assert(fits(word_width(q, context as int, start as int)));
            }
            w_total = w_total + buffer.pos[context].x_advance;
        }
        let fitted = fit_exec(sign, w_total, w_fixed, w_repeating, n_repeating);
        let n_copies = fitted.0;
        proof {
            lemma_fit_nonneg(sign as int, w_total as int, w_fixed as int, w_repeating as int, n_repeating as int);
            lemma_repeating_count_nonneg(s, st, end as int);
            assert(n_copies * n_repeating >= 0) by (nonlinear_arith)
                requires
                    n_copies >= 0,
                    n_repeating >= 0,
            ;
            lemma_extra_glyphs_nonneg(s, q, a@, sign as int, st);
        }
        let more = n_copies * n_repeating;
        extra = extra + more as usize;
        i = start;
    }
    extra
}

/// How many times a piece is laid: repeating pieces `copies + 1` times,
/// fixed pieces once.
pub open spec fn times(info: hb_glyph_info_t, copies: int) -> int {
    if is_repeating(info) {
        copies + 1
    } else {
        1
    }
}

/// A position with x offset `x`.
pub open spec fn with_x_offset(p: GlyphPosition, x: int) -> GlyphPosition {
    GlyphPosition { x_offset: x as i32, ..p }
}

/// The records `s` with `s[ctx..e]` marked unsafe to break and to
/// concatenate, and the scratch flags `fl` after it (see
/// `hb_buffer_t::unsafe_to_break`).
pub open spec fn unsafe_marked(s: Seq<hb_glyph_info_t>, fl: u32, ctx: int, e: int) -> (Seq<hb_glyph_info_t>, u32) {
    if e - ctx < 2 {
        (s, fl)
    } else {
        (flagged_interior(s, ctx, e, min_cluster(s, ctx, e, u32::MAX), UNSAFE_TO_BREAK | UNSAFE_TO_CONCAT),
            fl | SCRATCH_HAS_GLYPH_FLAGS)
    }
}

/// What the second pass makes of the records `s`, positions `p` and
/// scratch flags `fl`, walking back from record `i` with the write head at
/// `j`: a record that is no stretching piece is copied to `j - 1`; a run of
/// pieces ending at `i` marks its word and itself unsafe to break, then
/// lays its pieces (see `laid`).
pub open spec fn cut_seq(
    s: Seq<hb_glyph_info_t>,
    p: Seq<GlyphPosition>,
    fl: u32,
    a: Seq<i32>,
    sign: int,
    i: int,
    j: int,
) -> (Seq<hb_glyph_info_t>, Seq<GlyphPosition>, u32)
    decreases i, 2int, 0int,
{
    if i <= 0 {
        (s, p, fl)
    } else if !is_stch(s[i - 1]) {
        cut_seq(s.update(j - 1, s[i - 1]), p.update(j - 1, p[i - 1]), fl, a, sign, i - 1, j - 1)
    } else {
        let st = run_start(s, i);
        let ctx = context_start(s, st);
        let f = run_fit(s, p, a, sign, i);
        let m = unsafe_marked(s, fl, ctx, i);
        laid(m.0, p, m.1, a, sign, st, f.0, f.1, i, 0, times(s[i - 1], f.0), j, 0)
    }
}

/// What laying the pieces of the run `st..` makes of `s`, `p` and `fl`, at
/// copy `n` (of `rep`) of piece `k - 1`, with the write head at `j` and the
/// x offset so far `x`: each copy moves the offset back by the piece's
/// width (and forward by `overlap` after the first), gives it to the
/// piece, and copies the piece to `j - 1`.
pub open spec fn laid(
    s: Seq<hb_glyph_info_t>,
    p: Seq<GlyphPosition>,
    fl: u32,
    a: Seq<i32>,
    sign: int,
    st: int,
    copies: int,
    overlap: int,
    k: int,
    n: int,
    rep: int,
    j: int,
    x: int,
) -> (Seq<hb_glyph_info_t>, Seq<GlyphPosition>, u32)
    decreases k, 1int, rep - n,
{
    if st < 0 || k <= st {
        (s, p, fl)
    } else if n < rep {
        let x1 = x - a[k - 1] + (if n > 0 { overlap } else { 0 });
        let q = with_x_offset(p[k - 1], x1);
        laid(s.update(j - 1, s[k - 1]), p.update(k - 1, q).update(j - 1, q), fl, a, sign, st, copies, overlap, k, n + 1,
            rep, j - 1, x1)
    } else if k - 1 <= st {
        cut_seq(s, p, fl, a, sign, st, j)
    } else {
        laid(s, p, fl, a, sign, st, copies, overlap, k - 1, 0, times(s[k - 2], copies), j, x)
    }
}

/// `s` and `t` agree on what stretching reads of their first `e` records,
/// and `q` and `r` on the advances of their first `e` positions.
pub open spec fn same_shaping(s: Seq<hb_glyph_info_t>, t: Seq<hb_glyph_info_t>, q: Seq<GlyphPosition>, r: Seq<GlyphPosition>, e: int) -> bool {
    &&& e <= s.len() && e <= t.len() && e <= q.len() && e <= r.len()
    &&& forall|k: int| #![trigger s[k]] #![trigger t[k]] 0 <= k < e ==> s[k].var1 == t[k].var1 && s[k].var2 == t[k].var2
    &&& forall|k: int| #![trigger q[k]] #![trigger r[k]] 0 <= k < e ==> q[k].x_advance == r[k].x_advance
}

proof fn lemma_same_record(s: Seq<hb_glyph_info_t>, t: Seq<hb_glyph_info_t>, q: Seq<GlyphPosition>, r: Seq<GlyphPosition>, e: int, k: int)
    requires
        same_shaping(s, t, q, r, e),
        0 <= k < e,
    ensures
        is_stch(s[k]) == is_stch(t[k]),
        is_repeating(s[k]) == is_repeating(t[k]),
        in_word(s[k]) == in_word(t[k]),
        q[k].x_advance == r[k].x_advance,
{
    assert(s[k].var1 == t[k].var1 && s[k].var2 == t[k].var2);
}

proof fn lemma_same_shaping_smaller(s: Seq<hb_glyph_info_t>, t: Seq<hb_glyph_info_t>, q: Seq<GlyphPosition>, r: Seq<GlyphPosition>, e: int, e2: int)
    requires
        same_shaping(s, t, q, r, e),
        0 <= e2 <= e,
    ensures
        same_shaping(s, t, q, r, e2),
{
    assert forall|k: int| #![trigger s[k]] #![trigger t[k]] 0 <= k < e2 implies s[k].var1 == t[k].var1 && s[k].var2 == t[k].var2 by {
        assert(s[k].var1 == t[k].var1);
    }
    assert forall|k: int| #![trigger q[k]] #![trigger r[k]] 0 <= k < e2 implies q[k].x_advance == r[k].x_advance by {
        assert(q[k].x_advance == r[k].x_advance);
    }
}

proof fn lemma_same_runs(s: Seq<hb_glyph_info_t>, t: Seq<hb_glyph_info_t>, q: Seq<GlyphPosition>, r: Seq<GlyphPosition>, e: int)
    requires
        same_shaping(s, t, q, r, e),
        0 <= e,
    ensures
        run_start(s, e) == run_start(t, e),
        context_start(s, e) == context_start(t, e),
    decreases e,
{
    if e > 0 {
        lemma_same_record(s, t, q, r, e, e - 1);
        lemma_same_shaping_smaller(s, t, q, r, e, e - 1);
        lemma_same_runs(s, t, q, r, e - 1);
    }
}

proof fn lemma_same_widths(s: Seq<hb_glyph_info_t>, t: Seq<hb_glyph_info_t>, q: Seq<GlyphPosition>, r: Seq<GlyphPosition>, a: Seq<i32>, k: int, e: int, c: int, ov: int)
    requires
        same_shaping(s, t, q, r, e),
        0 <= k,
    ensures
        fixed_width(s, a, k, e) == fixed_width(t, a, k, e),
        repeating_width(s, a, k, e) == repeating_width(t, a, k, e),
        repeating_count(s, k, e) == repeating_count(t, k, e),
        word_width(q, k, e) == word_width(r, k, e),
        offset_after(s, a, k, e, c, ov) == offset_after(t, a, k, e, c, ov),
    decreases e - k,
{
    if k < e {
        lemma_same_record(s, t, q, r, e, k);
        lemma_same_widths(s, t, q, r, a, k + 1, e, c, ov);
    }
}

proof fn lemma_same_run(s: Seq<hb_glyph_info_t>, t: Seq<hb_glyph_info_t>, q: Seq<GlyphPosition>, r: Seq<GlyphPosition>, a: Seq<i32>, sign: int, e: int)
    requires
        same_shaping(s, t, q, r, e),
        0 <= e,
    ensures
        run_start(s, e) == run_start(t, e),
        context_start(s, run_start(s, e)) == context_start(t, run_start(t, e)),
        run_fit(s, q, a, sign, e) == run_fit(t, r, a, sign, e),
        run_ok(s, q, a, sign, e) == run_ok(t, r, a, sign, e),
{
    lemma_same_runs(s, t, q, r, e);
    let st = run_start(s, e);
    lemma_run_start(s, e);
    lemma_same_shaping_smaller(s, t, q, r, e, st);
    lemma_same_runs(s, t, q, r, st);
    let ctx = context_start(s, st);
    lemma_context_start(s, st);
    lemma_same_widths(s, t, q, r, a, st, e, 0, 0);
    lemma_same_widths(s, t, q, r, a, ctx, st, 0, 0);
    let f = run_fit(s, q, a, sign, e);
    assert forall|k: int|
        #![trigger fixed_width(s, a, k, e)]
        #![trigger fixed_width(t, a, k, e)]
        #![trigger repeating_width(s, a, k, e)]
        #![trigger repeating_width(t, a, k, e)]
        #![trigger repeating_count(s, k, e)]
        #![trigger repeating_count(t, k, e)]
        st <= k < e implies fixed_width(s, a, k, e) == fixed_width(t, a, k, e)
        && repeating_width(s, a, k, e) == repeating_width(t, a, k, e)
        && repeating_count(s, k, e) == repeating_count(t, k, e) by {
        lemma_same_widths(s, t, q, r, a, k, e, 0, 0);
    }
    assert forall|k: int| #![trigger word_width(q, k, st)] #![trigger word_width(r, k, st)]
        ctx <= k < st implies word_width(q, k, st) == word_width(r, k, st) by {
        lemma_same_widths(s, t, q, r, a, k, st, 0, 0);
    }
    assert forall|k: int|
        #![trigger offset_after(s, a, k, e, f.0, f.1)]
        #![trigger offset_after(t, a, k, e, f.0, f.1)]
        st < k <= e implies offset_after(s, a, k, e, f.0, f.1) == offset_after(t, a, k, e, f.0, f.1)
        && times(s[k - 1], f.0) == times(t[k - 1], f.0) by {
        lemma_same_widths(s, t, q, r, a, k, e, f.0, f.1);
        lemma_same_record(s, t, q, r, e, k - 1);
    }
}

proof fn lemma_same_extra(s: Seq<hb_glyph_info_t>, t: Seq<hb_glyph_info_t>, q: Seq<GlyphPosition>, r: Seq<GlyphPosition>, a: Seq<i32>, sign: int, e: int)
    requires
        same_shaping(s, t, q, r, e),
        0 <= e,
    ensures
        extra_glyphs(s, q, a, sign, e) == extra_glyphs(t, r, a, sign, e),
    decreases e,
{
    if e > 0 {
        lemma_same_record(s, t, q, r, e, e - 1);
        if !is_stch(s[e - 1]) {
            lemma_same_shaping_smaller(s, t, q, r, e, e - 1);
            lemma_same_extra(s, t, q, r, a, sign, e - 1);
        } else {
            lemma_same_run(s, t, q, r, a, sign, e);
            let st = run_start(s, e);
            lemma_run_start(s, e);
            lemma_same_widths(s, t, q, r, a, st, e, 0, 0);
            if 0 <= st < e {
                lemma_same_shaping_smaller(s, t, q, r, e, st);
                lemma_same_extra(s, t, q, r, a, sign, st);
            }
        }
    }
}

proof fn lemma_offset_fits(s: Seq<hb_glyph_info_t>, q: Seq<GlyphPosition>, a: Seq<i32>, sign: int, e: int, k: int, m: int)
    requires
        run_ok(s, q, a, sign, e),
        run_start(s, e) < k <= e,
        1 <= m <= times(s[k - 1], run_fit(s, q, a, sign, e).0),
    ensures
        fits(copy_offset(offset_after(s, a, k, e, run_fit(s, q, a, sign, e).0, run_fit(s, q, a, sign, e).1), a[k - 1] as int, m, run_fit(s, q, a, sign, e).1)),
        m > 1 ==> fits(copy_offset(offset_after(s, a, k, e, run_fit(s, q, a, sign, e).0, run_fit(s, q, a, sign, e).1), a[k - 1] as int, m, run_fit(s, q, a, sign, e).1) - run_fit(s, q, a, sign, e).1),
{
    let f = run_fit(s, q, a, sign, e);
    assert(fits(copy_offset(offset_after(s, a, k, e, f.0, f.1), a[k - 1] as int, m, f.1)));
}

/// How many copies the pieces `s[st..k]` make, each laid `times` over.
pub open spec fn laid_before(s: Seq<hb_glyph_info_t>, copies: int, st: int, k: int) -> int
    decreases k - st,
{
    if k <= st {
        0
    } else {
        laid_before(s, copies, st, k - 1) + times(s[k - 1], copies)
    }
}

proof fn lemma_count_split(s: Seq<hb_glyph_info_t>, k: int, e: int)
    requires
        k < e,
    ensures
        repeating_count(s, k, e) == repeating_count(s, k, e - 1) + (if is_repeating(s[e - 1]) { 1int } else { 0int }),
    decreases e - k,
{
    if k < e - 1 {
        lemma_count_split(s, k + 1, e);
        assert(repeating_count(s, k, e - 1) == repeating_count(s, k + 1, e - 1) + (if is_repeating(s[k]) { 1int } else { 0int }));
    } else {
        assert(repeating_count(s, k + 1, e) == 0);
        assert(repeating_count(s, k, e - 1) == 0);
    }
}

proof fn lemma_laid_before(s: Seq<hb_glyph_info_t>, copies: int, st: int, k: int)
    requires
        st <= k,
    ensures
        laid_before(s, copies, st, k) == (k - st) + copies * repeating_count(s, st, k),
    decreases k - st,
{
    if k > st {
        lemma_laid_before(s, copies, st, k - 1);
        lemma_count_split(s, st, k);
        let rc = repeating_count(s, st, k - 1);
        let d: int = if is_repeating(s[k - 1]) { 1 } else { 0 };
        assert(copies * (rc + d) == copies * rc + copies * d) by (nonlinear_arith);
    }
}

proof fn lemma_copies_fit(sign: int, wt: int, wf: int, wr: int, nr: int)
    requires
        fit_ok(sign, wt, wf, wr, nr),
    ensures
        fits(fit(sign, wt, wf, wr, nr).0 + 1),
        fit(sign, wt, wf, wr, nr).0 >= 0,
{
    lemma_fit_nonneg(sign, wt, wf, wr, nr);
    let rem = sign * (wt - wf);
    let rep = sign * wr;
    if rem > rep && rep > 0 {
        assert(rem / rep <= rem) by (nonlinear_arith)
            requires
                rem > rep > 0,
        ;
    }
}

/// The second pass: lays the pieces of every run from the end of the
/// buffer back, writing from `new_len` down (see `cut_seq`).
fn cut(buffer: &mut hb_buffer_t, a: &[i32], sign: i32, new_len: usize)
    requires
        old(buffer).wf(),
        -1 <= sign <= 1,
        a@.len() >= old(buffer).len,
        old(buffer).info@.len() >= new_len,
        extra_glyphs(old(buffer).info@, old(buffer).pos@, a@, sign as int, old(buffer).len as int).1,
        new_len == old(buffer).len + extra_glyphs(old(buffer).info@, old(buffer).pos@, a@, sign as int, old(buffer).len as int).0,
    ensures
        final(buffer).wf(),
        (final(buffer).info@, final(buffer).pos@, final(buffer).scratch_flags) == cut_seq(old(buffer).info@,
            old(buffer).pos@, old(buffer).scratch_flags, a@, sign as int, old(buffer).len as int, new_len as int),
        *final(buffer) == (hb_buffer_t { info: final(buffer).info, pos: final(buffer).pos,
            scratch_flags: final(buffer).scratch_flags, ..*old(buffer) }),
{
    let ghost b0 = *buffer;
    let ghost s0 = buffer.info@;
    let ghost q0 = buffer.pos@;
    let ghost n0 = buffer.len as int;
    let ghost target = cut_seq(s0, q0, b0.scratch_flags, a@, sign as int, n0, new_len as int);
    let mut i = buffer.len;
    let mut j = new_len;
    proof {
        lemma_extra_glyphs_nonneg(s0, q0, a@, sign as int, n0);
        assert forall|k: int| #![trigger buffer.info@[k]] #![trigger s0[k]] 0 <= k < n0 implies buffer.info@[k].var1 == s0[k].var1 && buffer.info@[k].var2 == s0[k].var2 by {}
        assert forall|k: int| #![trigger buffer.pos@[k]] #![trigger q0[k]] 0 <= k < n0 implies buffer.pos@[k].x_advance == q0[k].x_advance by {}
    }
    while i != 0
        invariant
            buffer.wf(),
            -1 <= sign <= 1,
            buffer.len == n0,
            n0 <= a@.len(),
            buffer.info@.len() == s0.len(),
            s0.len() >= new_len,
            0 <= i <= n0,
            j == i + extra_glyphs(s0, q0, a@, sign as int, i as int).0,
            j <= new_len,
            extra_glyphs(s0, q0, a@, sign as int, i as int).0 >= 0,
            extra_glyphs(s0, q0, a@, sign as int, i as int).1,
            same_shaping(buffer.info@, s0, buffer.pos@, q0, i as int),
            cut_seq(buffer.info@, buffer.pos@, buffer.scratch_flags, a@, sign as int, i as int, j as int) == target,
            *buffer == (hb_buffer_t { info: buffer.info, pos: buffer.pos, scratch_flags: buffer.scratch_flags, ..b0 }),
        decreases i,
    {
        let ghost cur = *buffer;
        proof {
            lemma_same_record(buffer.info@, s0, buffer.pos@, q0, i as int, i - 1);
        }
        if !is_stch_exec(&buffer.info[i - 1]) {
            proof {
                lemma_extra_glyphs_nonneg(s0, q0, a@, sign as int, i - 1);
            }
            j = j - 1;
            let g = buffer.info[i - 1];
            let p = buffer.pos[i - 1];
            buffer.info.set(j, g);
            buffer.pos.set(j, p);
            proof {
                assert(buffer.info@ =~= cur.info@.update(j as int, cur.info@[i - 1]));
                assert(buffer.pos@ =~= cur.pos@.update(j as int, cur.pos@[i - 1]));
                assert forall|k: int| #![trigger buffer.info@[k]] #![trigger s0[k]] 0 <= k < i - 1 implies buffer.info@[k].var1 == s0[k].var1 && buffer.info@[k].var2 == s0[k].var2 by {
                    assert(cur.info@[k].var1 == s0[k].var1);
                }
                assert forall|k: int| #![trigger buffer.pos@[k]] #![trigger q0[k]] 0 <= k < i - 1 implies buffer.pos@[k].x_advance == q0[k].x_advance by {
                    assert(cur.pos@[k].x_advance == q0[k].x_advance);
                }
            }
            i = i - 1;
            continue;
        }
        // A run of pieces ends at `end`.
        let end = i;
        let ghost e = end as int;
        let ghost st = run_start(s0, e);
        let ghost ctx = context_start(s0, st);
        let ghost f = run_fit(s0, q0, a@, sign as int, e);
        proof {
            lemma_run_start(s0, e);
            lemma_context_start(s0, st);
            lemma_same_run(buffer.info@, s0, buffer.pos@, q0, a@, sign as int, e);
            lemma_extra_glyphs_nonneg(s0, q0, a@, sign as int, st);
            assert(run_ok(s0, q0, a@, sign as int, e));
        }
        let mut w_fixed: i32 = 0;
        let mut w_repeating: i32 = 0;
        let mut n_repeating: i32 = 0;
        while i != 0 && is_stch_exec(&buffer.info[i - 1])
            invariant
                *buffer == cur,
                cur.wf(),
                e <= cur.len <= a@.len(),
                st <= i <= e,
                st == run_start(cur.info@, e),
                run_start(cur.info@, i as int) == st,
                run_ok(cur.info@, cur.pos@, a@, sign as int, e),
                w_fixed == fixed_width(cur.info@, a@, i as int, e),
                w_repeating == repeating_width(cur.info@, a@, i as int, e),
                n_repeating == repeating_count(cur.info@, i as int, e),
            decreases i,
        {
            proof {
                lemma_run_start(cur.info@, i - 1);
            }
            i = i - 1;
            let width = a[i];
            proof {
                assert(fits(fixed_width(cur.info@, a@, i as int, e)));
                assert(fits(repeating_width(cur.info@, a@, i as int, e)));
                assert(fits(repeating_count(cur.info@, i as int, e)));
            }
            if buffer.info[i].shaper_byte() == crate::arabic::ACTION_STRETCHING_FIXED {
                w_fixed = w_fixed + width;
            } else {
                w_repeating = w_repeating + width;
                n_repeating = n_repeating + 1;
            }
        }
        let start = i;
        let mut context = i;
        let mut w_total: i32 = 0;
        while context != 0 && in_word_exec(&buffer.info[context - 1])
            invariant
                *buffer == cur,
                cur.wf(),
                ctx <= context <= start,
                start == st,
                st <= e <= cur.len,
                st == run_start(cur.info@, e),
                ctx == context_start(cur.info@, st),
                context_start(cur.info@, context as int) == ctx,
                run_ok(cur.info@, cur.pos@, a@, sign as int, e),
                w_total == word_width(cur.pos@, context as int, start as int),
            decreases context,
        {
            proof {
                lemma_context_start(cur.info@, context - 1);
            }
            context = context - 1;
            proof {
                assert(fits(word_width(cur.pos@, context as int, start as int)));
            }
            w_total = w_total + buffer.pos[context].x_advance;
        }
        let fitted = fit_exec(sign, w_total, w_fixed, w_repeating, n_repeating);
        let n_copies = fitted.0;
        let overlap = fitted.1;
        proof {
            lemma_copies_fit(sign as int, w_total as int, w_fixed as int, w_repeating as int, n_repeating as int);
            lemma_laid_before(s0, n_copies as int, st, e);
        }
        buffer.unsafe_to_break(Some(context), Some(end));
        proof {
            let m = unsafe_marked(cur.info@, cur.scratch_flags, ctx, e);
            assert(buffer.info@ == m.0 && buffer.scratch_flags == m.1);
            assert forall|k: int| #![trigger buffer.info@[k]] #![trigger s0[k]] 0 <= k < e implies buffer.info@[k].var1 == s0[k].var1 && buffer.info@[k].var2 == s0[k].var2 by {
                assert(cur.info@[k].var1 == s0[k].var1);
            }
            assert(times(buffer.info@[e - 1], f.0) == times(cur.info@[e - 1], f.0));
            assert(laid(buffer.info@, buffer.pos@, buffer.scratch_flags, a@, sign as int, st, f.0, f.1, e, 0,
                times(buffer.info@[e - 1], f.0), j as int, 0) == target);
        }
        let mut x: i32 = 0;
        let mut k = end;
        while k > start
            invariant
                buffer.wf(),
                -1 <= sign <= 1,
                buffer.len == n0,
                n0 <= a@.len(),
                buffer.info@.len() == s0.len(),
                s0.len() >= new_len,
                0 <= st == start <= k <= e <= n0,
                st == run_start(s0, e),
                f == run_fit(s0, q0, a@, sign as int, e),
                n_copies == f.0,
                overlap == f.1,
                n_copies >= 0,
                fits(n_copies + 1),
                run_ok(s0, q0, a@, sign as int, e),
                x == offset_after(s0, a@, k as int, e, f.0, f.1),
                j == st + extra_glyphs(s0, q0, a@, sign as int, st).0 + laid_before(s0, f.0, st, k as int),
                j <= new_len,
                extra_glyphs(s0, q0, a@, sign as int, st).0 >= 0,
                extra_glyphs(s0, q0, a@, sign as int, st).1,
                same_shaping(buffer.info@, s0, buffer.pos@, q0, k as int),
                *buffer == (hb_buffer_t { info: buffer.info, pos: buffer.pos, scratch_flags: buffer.scratch_flags, ..b0 }),
                k > start ==> laid(buffer.info@, buffer.pos@, buffer.scratch_flags, a@, sign as int, st, f.0, f.1, k as int,
                    0, times(buffer.info@[k - 1], f.0), j as int, x as int) == target,
                k == start ==> cut_seq(buffer.info@, buffer.pos@, buffer.scratch_flags, a@, sign as int, st, j as int) == target,
            decreases k,
        {
            let width = a[k - 1];
            proof {
                lemma_same_record(buffer.info@, s0, buffer.pos@, q0, k as int, k - 1);
            }
            let repeat: i32 = if buffer.info[k - 1].shaper_byte() == crate::arabic::ACTION_STRETCHING_REPEATING {
                n_copies + 1
            } else {
                1
            };
            let ghost rep = repeat as int;
            let ghost base = x as int;
            let ghost kk = k as int;
            assert(rep == times(s0[kk - 1], f.0));
            proof {
                lemma_laid_before(s0, f.0, st, kk - 1);
                lemma_repeating_count_nonneg(s0, st, kk - 1);
                assert(times(buffer.info@[kk - 1], f.0) == rep);
            }
            let mut n: i32 = 0;
            while n < repeat
                invariant
                    buffer.wf(),
                    buffer.len == n0,
                    n0 <= a@.len(),
                    buffer.info@.len() == s0.len(),
                    s0.len() >= new_len,
                    0 <= st < kk <= e <= n0,
                    st == run_start(s0, e),
                    f == run_fit(s0, q0, a@, sign as int, e),
                    k == kk,
                    width == a@[kk - 1],
                    rep == repeat,
                    rep == times(s0[kk - 1], f.0),
                    1 <= rep,
                    0 <= n <= rep,
                    overlap == f.1,
                    run_ok(s0, q0, a@, sign as int, e),
                    base == offset_after(s0, a@, kk, e, f.0, f.1),
                    x == (if n == 0 { base } else { copy_offset(base, width as int, n as int, overlap as int) }),
                    j == st + extra_glyphs(s0, q0, a@, sign as int, st).0 + laid_before(s0, f.0, st, kk - 1) + (rep - n),
                    j <= new_len,
                    extra_glyphs(s0, q0, a@, sign as int, st).0 >= 0,
                    laid_before(s0, f.0, st, kk - 1) == (kk - 1 - st) + f.0 * repeating_count(s0, st, kk - 1),
                    f.0 >= 0,
                    repeating_count(s0, st, kk - 1) >= 0,
                    same_shaping(buffer.info@, s0, buffer.pos@, q0, kk - 1),
                    buffer.info@[kk - 1].var1 == s0[kk - 1].var1,
                    buffer.info@[kk - 1].var2 == s0[kk - 1].var2,
                    buffer.pos@[kk - 1].x_advance == q0[kk - 1].x_advance,
                    *buffer == (hb_buffer_t { info: buffer.info, pos: buffer.pos, scratch_flags: buffer.scratch_flags, ..b0 }),
                    laid(buffer.info@, buffer.pos@, buffer.scratch_flags, a@, sign as int, st, f.0, f.1, kk, n as int, rep,
                        j as int, x as int) == target,
                decreases rep - n,
            {
                let ghost here = *buffer;
                let ghost x_old = x as int;
                proof {
                    assert(f.0 * repeating_count(s0, st, kk - 1) >= 0) by (nonlinear_arith)
                        requires
                            f.0 >= 0,
                            repeating_count(s0, st, kk - 1) >= 0,
                    ;
                    lemma_offset_fits(s0, q0, a@, sign as int, e, kk, n + 1);
                    assert(fits(copy_offset(base, width as int, n + 1, overlap as int)));
                    if n > 0 {
                        assert(fits(copy_offset(base, width as int, n + 1, overlap as int) - overlap));
                        assert(copy_offset(base, width as int, n as int, overlap as int) - width
                            == copy_offset(base, width as int, n + 1, overlap as int) - overlap) by (nonlinear_arith);
                    } else {
                        assert(base - width == copy_offset(base, width as int, 1, overlap as int)) by (nonlinear_arith);
                    }
                }
                x = x - width;
                if n > 0 {
                    x = x + overlap;
                }
                let mut p = buffer.pos[k - 1];
                p.x_offset = x;
                buffer.pos.set(k - 1, p);
                j = j - 1;
                let g = buffer.info[k - 1];
                buffer.info.set(j, g);
                buffer.pos.set(j, p);
                proof {
                    let x1 = x_old - a@[kk - 1] + (if n > 0 { f.1 } else { 0 });
                    assert(x as int == x1);
                    assert(p == with_x_offset(here.pos@[kk - 1], x1));
                    assert(buffer.info@ =~= here.info@.update(j as int, here.info@[kk - 1]));
                    assert(buffer.pos@ =~= here.pos@.update(kk - 1, p).update(j as int, p));
                    assert forall|m: int| #![trigger buffer.info@[m]] #![trigger s0[m]] 0 <= m < kk - 1 implies buffer.info@[m].var1 == s0[m].var1 && buffer.info@[m].var2 == s0[m].var2 by {
                        assert(here.info@[m].var1 == s0[m].var1);
                    }
                    assert forall|m: int| #![trigger buffer.pos@[m]] #![trigger q0[m]] 0 <= m < kk - 1 implies buffer.pos@[m].x_advance == q0[m].x_advance by {
                        assert(here.pos@[m].x_advance == q0[m].x_advance);
                    }
                }
                n = n + 1;
            }
            k = k - 1;
            proof {
                assert(x == offset_after(s0, a@, k as int, e, f.0, f.1));
                assert(same_shaping(buffer.info@, s0, buffer.pos@, q0, k as int));
            }
        }
        i = start;
    }
}

/// Stretches the runs of stretching pieces (Syriac abbreviation marks) of
/// a buffer whose scratch flags say it has some: every run grows to cover
/// the word before it, by repeating its repeating pieces (see `fit`), and
/// the buffer grows by the extra copies (see `extra_glyphs` and
/// `cut_seq`). `sign` is the sign of the font's horizontal scale, and
/// `advances[k]` the horizontal advance of the glyph of record `k`.
pub fn apply_stch(sign: i32, advances: &[i32], buffer: &mut hb_buffer_t)
    requires
        old(buffer).wf(),
        -1 <= sign <= 1,
        !old(buffer).have_output,
        old(buffer).scratch_flags & SCRATCH_HAS_STCH != 0 ==> {
            &&& advances@.len() >= old(buffer).len
            &&& extra_glyphs(old(buffer).info@, old(buffer).pos@, advances@, sign as int, old(buffer).len as int).1
            &&& old(buffer).len + extra_glyphs(old(buffer).info@, old(buffer).pos@, advances@, sign as int,
                old(buffer).len as int).0 <= old(buffer).max_len
        },
    ensures
        final(buffer).wf(),
        old(buffer).scratch_flags & SCRATCH_HAS_STCH == 0 ==> *final(buffer) == *old(buffer),
        old(buffer).scratch_flags & SCRATCH_HAS_STCH != 0 ==> ({
            let n = old(buffer).len as int;
            let new_len = n + extra_glyphs(old(buffer).info@, old(buffer).pos@, advances@, sign as int, n).0;
            let r = cut_seq(
                resized(old(buffer).info@, new_len, zero_info()),
                resized(old(buffer).pos@, new_len, zero_pos()),
                old(buffer).scratch_flags,
                advances@,
                sign as int,
                n,
                new_len,
            );
            &&& final(buffer).len == new_len
            &&& final(buffer).info@ == r.0
            &&& final(buffer).pos@ == r.1
            &&& final(buffer).scratch_flags == r.2
            &&& *final(buffer) == (hb_buffer_t { info: final(buffer).info, pos: final(buffer).pos,
                out_sep: final(buffer).out_sep, scratch_flags: final(buffer).scratch_flags, len: final(buffer).len,
                ..*old(buffer) })
        }),
{
    if buffer.scratch_flags & SCRATCH_HAS_STCH == 0 {
        return;
    }
    let ghost s0 = buffer.info@;
    let ghost q0 = buffer.pos@;
    let ghost n = buffer.len as int;
    let extra = measure(buffer, advances, sign);
    let len = buffer.len;
    let new_len = len + extra;
    buffer.ensure(new_len);
    proof {
        let s1 = buffer.info@;
        let q1 = buffer.pos@;
        assert forall|k: int| #![trigger s1[k]] #![trigger s0[k]] 0 <= k < n implies s1[k].var1 == s0[k].var1 && s1[k].var2 == s0[k].var2 by {
            assert(s1[k] == s0[k]);
        }
        assert forall|k: int| #![trigger q1[k]] #![trigger q0[k]] 0 <= k < n implies q1[k].x_advance == q0[k].x_advance by {
            assert(q1[k] == q0[k]);
        }
        assert(same_shaping(s1, s0, q1, q0, n));
        lemma_same_extra(s1, s0, q1, q0, advances@, sign as int, n);
    }
    cut(buffer, advances, sign, new_len);
    buffer.len = new_len;
}

} // verus!
