//! The scanner that runs a syllable machine over a run of glyph categories.
//!
//! A syllable machine is a deterministic automaton in the compressed table
//! layout of a longest-match scanner: every state has a row of transitions
//! indexed by character class, a default transition and an end-of-text
//! transition; every transition has a target state and an action.  The
//! scanner reads the categories left to right; an action may record that the
//! current token could end here, or emit a token, possibly stepping back to
//! where the last complete match ended.  Each emitted token labels the glyphs
//! it covers with a serial number (1 to 15, then 1 again) and its kind.
use vstd::prelude::*;
use crate::glyph::{hb_glyph_info_t, lo16, byte2, byte3};

verus! {

/// What a transition does besides moving to its target state.
#[derive(Clone, Copy, PartialEq, Eq, Structural)]
pub enum ScanOp {
    /// Nothing.
    Nop,
    /// The token may end after the current glyph.
    SetTe,
    /// The token may end after the current glyph, by the rule given.
    SetTeAct(u8),
    /// A token of the kind given ends after the current glyph.
    EmitNext(u8),
    /// A token of the kind given ends before the current glyph.
    EmitHere(u8),
    /// A token of the kind given ends where the last match ended.
    EmitBack(u8),
    /// The token of the last matched rule ends where that match ended.
    EmitByAct,
}

/// The tables of a syllable machine.
pub struct SyllableMachine<'a> {
    pub trans_keys: &'a [u16],
    pub char_class: &'a [u16],
    pub index_offsets: &'a [u16],
    pub indices: &'a [u16],
    pub index_defaults: &'a [u16],
    pub cond_targs: &'a [u16],
    pub cond_actions: &'a [u16],
    pub to_state_actions: &'a [u16],
    pub from_state_actions: &'a [u16],
    pub eof_trans: &'a [u16],
    /// The action of each action code, encoded (see `decode_op`).
    pub ops: &'a [u16],
    /// The token kind of each rule number, for `EmitByAct`; `NO_KIND` for none.
    pub act_kinds: &'a [u8],
    /// The states in which the end of the current token has been recorded
    /// since the last token was emitted; the proof of progress rests on it.
    pub fresh: &'a [bool],
    /// The states in which the current token has matched a rule that names
    /// a kind; the proof that the tokens tile the text rests on it.
    pub act_set: &'a [bool],
    pub states: u16,
    pub transitions: u16,
    pub start: u16,
    /// The from-state action that starts a token.
    pub from_code: u16,
    /// The to-state action that clears the token start.
    pub to_code: u16,
    pub min_cat: u8,
    pub max_cat: u8,
}

/// The tables of a syllable machine, as values.
pub ghost struct MachineTables {
    pub trans_keys: Seq<u16>,
    pub char_class: Seq<u16>,
    pub index_offsets: Seq<u16>,
    pub indices: Seq<u16>,
    pub index_defaults: Seq<u16>,
    pub cond_targs: Seq<u16>,
    pub cond_actions: Seq<u16>,
    pub to_state_actions: Seq<u16>,
    pub from_state_actions: Seq<u16>,
    pub eof_trans: Seq<u16>,
    pub ops: Seq<u16>,
    pub act_kinds: Seq<u8>,
    pub fresh: Seq<bool>,
    pub act_set: Seq<bool>,
    pub states: int,
    pub transitions: int,
    pub start: int,
    pub from_code: u16,
    pub to_code: u16,
    pub min_cat: u8,
    pub max_cat: u8,
}

impl<'a> View for SyllableMachine<'a> {
    type V = MachineTables;

    open spec fn view(&self) -> MachineTables {
        MachineTables {
            trans_keys: self.trans_keys@,
            char_class: self.char_class@,
            index_offsets: self.index_offsets@,
            indices: self.indices@,
            index_defaults: self.index_defaults@,
            cond_targs: self.cond_targs@,
            cond_actions: self.cond_actions@,
            to_state_actions: self.to_state_actions@,
            from_state_actions: self.from_state_actions@,
            eof_trans: self.eof_trans@,
            ops: self.ops@,
            act_kinds: self.act_kinds@,
            fresh: self.fresh@,
            act_set: self.act_set@,
            states: self.states as int,
            transitions: self.transitions as int,
            start: self.start as int,
            from_code: self.from_code,
            to_code: self.to_code,
            min_cat: self.min_cat,
            max_cat: self.max_cat,
        }
    }
}

/// The rule-number entry that names no kind.
pub const NO_KIND: u8 = 0xFF;

/// The action that `code` encodes: the low nibble picks the action, the
/// rest is its argument.
pub open spec fn decode_op(code: u16) -> ScanOp {
    let arg = (code / 16) as u8;
    let tag = code % 16;
    if tag == 1 {
        ScanOp::SetTe
    } else if tag == 2 {
        ScanOp::SetTeAct(arg)
    } else if tag == 3 {
        ScanOp::EmitNext(arg)
    } else if tag == 4 {
        ScanOp::EmitHere(arg)
    } else if tag == 5 {
        ScanOp::EmitBack(arg)
    } else if tag == 6 {
        ScanOp::EmitByAct
    } else {
        ScanOp::Nop
    }
}

/// The kind a rule-number entry names.
pub open spec fn decode_kind(v: u8) -> Option<u8> {
    if v == NO_KIND {
        None
    } else {
        Some(v)
    }
}

fn decode_op_exec(code: u16) -> (r: ScanOp)
    ensures
        r == decode_op(code),
{
    let arg = (code / 16) as u8;
    let tag = code % 16;
    if tag == 1 {
        ScanOp::SetTe
    } else if tag == 2 {
        ScanOp::SetTeAct(arg)
    } else if tag == 3 {
        ScanOp::EmitNext(arg)
    } else if tag == 4 {
        ScanOp::EmitHere(arg)
    } else if tag == 5 {
        ScanOp::EmitBack(arg)
    } else if tag == 6 {
        ScanOp::EmitByAct
    } else {
        ScanOp::Nop
    }
}

/// Whether an action emits a token (for `EmitByAct`: when its rule names one).
pub open spec fn op_emits(op: ScanOp) -> bool {
    op is EmitNext || op is EmitHere || op is EmitBack || op is EmitByAct
}

/// Whether an action records where the current token may end.
pub open spec fn op_sets_te(op: ScanOp) -> bool {
    op is SetTe || op is SetTeAct || op is EmitNext || op is EmitHere
}

/// The kind an action names, if any.
pub open spec fn op_kind(op: ScanOp) -> Option<u8> {
    match op {
        ScanOp::EmitNext(k) => Some(k),
        ScanOp::EmitHere(k) => Some(k),
        ScanOp::EmitBack(k) => Some(k),
        _ => None,
    }
}

/// A kind, if any, fits in the low nibble of a syllable byte.
pub open spec fn kind_fits(k: Option<u8>) -> bool {
    match k {
        Some(k) => k < 16,
        None => true,
    }
}

/// The state of a scan.
pub ghost struct ScanState {
    /// The machine state.
    pub cs: int,
    /// Where the current token started.
    pub ts: int,
    /// Where the current token may end.
    pub te: int,
    /// The rule that last matched.
    pub act: int,
    /// The position read next.
    pub p: int,
    /// The transition taken last.
    pub trans: int,
    /// The tokens emitted so far: start, end and kind.
    pub toks: Seq<(int, int, u8)>,
    /// Whether the scan has ended.
    pub done: bool,
}

impl MachineTables {
    pub open spec fn row_lo(self, s: int) -> int {
        self.trans_keys[2 * s] as int
    }

    pub open spec fn row_hi(self, s: int) -> int {
        self.trans_keys[2 * s + 1] as int
    }

    /// The transition that state `s` takes on a glyph of category `cat`.
    pub open spec fn trans_for(self, s: int, cat: u8) -> int {
        if self.min_cat <= cat && cat <= self.max_cat {
            let c = self.char_class[cat - self.min_cat] as int;
            if self.row_lo(s) <= c && c <= self.row_hi(s) {
                self.indices[self.index_offsets[s] + (c - self.row_lo(s))] as int
            } else {
                self.index_defaults[s] as int
            }
        } else {
            self.index_defaults[s] as int
        }
    }

    /// The action of transition `t`.
    pub open spec fn op_of(self, t: int) -> ScanOp {
        let code = self.cond_actions[t] as int;
        if code < self.ops.len() {
            decode_op(self.ops[code])
        } else {
            ScanOp::Nop
        }
    }

    /// The kind of token that rule `act` names.
    pub open spec fn act_kind(self, act: int) -> Option<u8> {
        if 0 <= act < self.act_kinds.len() {
            decode_kind(self.act_kinds[act])
        } else {
            None
        }
    }

    /// A transition from state `s` keeps the scan going: it is a transition,
    /// it steps back only from inside a token, it emits only into the start
    /// state, and it leaves a state where the token end is recorded only for
    /// another such state.
    pub open spec fn edge_ok(self, s: int, t: int) -> bool {
        let op = self.op_of(t);
        let tg = self.cond_targs[t] as int;
        &&& 0 <= t < self.transitions
        &&& (op is EmitHere ==> s != self.start)
        &&& ((op is EmitBack || op is EmitByAct) ==> self.fresh[s])
        &&& (op_emits(op) ==> tg == self.start)
        &&& ((!op_emits(op) && !op_sets_te(op) && self.fresh[tg]) ==> self.fresh[s])
    }

    /// The row of state `s` is well formed.
    pub open spec fn row_ok(self, s: int) -> bool {
        &&& 0 < self.eof_trans[s] <= self.transitions
        &&& !(self.op_of(self.eof_trans[s] - 1) is EmitNext)
        &&& self.edge_ok(s, self.eof_trans[s] - 1)
        &&& self.edge_ok(s, self.index_defaults[s] as int)
        &&& (self.row_lo(s) <= self.row_hi(s) ==> self.index_offsets[s] + self.row_hi(s)
            - self.row_lo(s) < self.indices.len())
        &&& forall|c: int|
            self.row_lo(s) <= c <= self.row_hi(s) ==> #[trigger] self.edge_ok(
                s,
                self.indices[self.index_offsets[s] + c - self.row_lo(s)] as int,
            )
    }

    /// The tables describe a machine that the scanner can run.
    pub open spec fn wf(self) -> bool {
        &&& 0 < self.states < 0x8000
        &&& 0 < self.transitions
        &&& self.trans_keys.len() >= 2 * self.states
        &&& self.index_offsets.len() >= self.states
        &&& self.index_defaults.len() >= self.states
        &&& self.eof_trans.len() >= self.states
        &&& self.to_state_actions.len() >= self.states
        &&& self.from_state_actions.len() >= self.states
        &&& self.fresh.len() >= self.states
        &&& self.cond_targs.len() >= self.transitions
        &&& self.cond_actions.len() >= self.transitions
        &&& self.min_cat <= self.max_cat
        &&& self.char_class.len() > self.max_cat - self.min_cat
        &&& 0 <= self.start < self.states
        &&& !self.fresh[self.start]
        &&& forall|t: int| 0 <= t < self.transitions ==> #[trigger] self.cond_targs[t] < self.states
        &&& forall|t: int|
            0 <= t < self.transitions ==> #[trigger] self.cond_actions[t] < self.ops.len()
        &&& forall|i: int|
            0 <= i < self.ops.len() ==> #[trigger] kind_fits(op_kind(decode_op(self.ops[i])))
        &&& forall|i: int|
            0 <= i < self.act_kinds.len() ==> #[trigger] kind_fits(decode_kind(self.act_kinds[i]))
        &&& forall|s: int| 0 <= s < self.states ==> #[trigger] self.row_ok(s)
    }

    /// A transition from state `s` (at the end of the text if `at_end`) keeps
    /// the tokens tiling the text: away from the end, a transition into the
    /// start state emits; at the end, exactly the transitions from inside a
    /// token emit; a rule that names the kind is known when it is used.
    pub open spec fn edge_tiles(self, s: int, t: int, at_end: bool) -> bool {
        let op = self.op_of(t);
        let tg = self.cond_targs[t] as int;
        &&& (!at_end && !op_emits(op) ==> tg != self.start)
        &&& (at_end ==> (op_emits(op) <==> s != self.start))
        &&& (op is EmitByAct ==> self.act_set[s])
        &&& (match op {
            ScanOp::SetTeAct(a) => self.act_kind(a as int) is Some,
            _ => true,
        })
        &&& ((!op_emits(op) && !(op is SetTeAct) && self.act_set[tg]) ==> self.act_set[s])
    }

    /// The row of state `s` keeps the tokens tiling the text; only the start
    /// state starts or clears a token.
    pub open spec fn row_tiles(self, s: int) -> bool {
        &&& (self.from_state_actions[s] == self.from_code <==> s == self.start)
        &&& (self.to_state_actions[s] == self.to_code ==> s == self.start)
        &&& self.edge_tiles(s, self.eof_trans[s] - 1, true)
        &&& self.edge_tiles(s, self.index_defaults[s] as int, false)
        &&& forall|c: int|
            self.row_lo(s) <= c <= self.row_hi(s) ==> #[trigger] self.edge_tiles(
                s,
                self.indices[self.index_offsets[s] + c - self.row_lo(s)] as int,
                false,
            )
    }

    /// The tokens of every scan tile the text.
    pub open spec fn tiles_text(self) -> bool {
        &&& self.act_set.len() >= self.states
        &&& !self.act_set[self.start]
        &&& forall|s: int| 0 <= s < self.states ==> #[trigger] self.row_tiles(s)
    }

    /// The scan before the first glyph.
    pub open spec fn start_state(self) -> ScanState {
        ScanState { cs: self.start, ts: 0, te: 0, act: 0, p: 0, trans: 0, toks: seq![], done: false }
    }

    /// One step of the scan over the categories `cats`.
    pub open spec fn step(self, cats: Seq<u8>, st: ScanState) -> ScanState {
        if st.done {
            st
        } else {
            let n = cats.len() as int;
            let ts0 = if self.from_state_actions[st.cs] == self.from_code {
                st.p
            } else {
                st.ts
            };
            let trans = if st.p == n {
                if self.eof_trans[st.cs] > 0 {
                    self.eof_trans[st.cs] - 1
                } else {
                    st.trans
                }
            } else {
                self.trans_for(st.cs, cats[st.p])
            };
            let cs = self.cond_targs[trans] as int;
            let op = self.op_of(trans);
            let te = match op {
                ScanOp::SetTe => st.p + 1,
                ScanOp::SetTeAct(_) => st.p + 1,
                ScanOp::EmitNext(_) => st.p + 1,
                ScanOp::EmitHere(_) => st.p,
                _ => st.te,
            };
            let act = match op {
                ScanOp::SetTeAct(a) => a as int,
                _ => st.act,
            };
            let emitted = match op {
                ScanOp::EmitByAct => self.act_kind(st.act),
                _ => op_kind(op),
            };
            let p = match op {
                ScanOp::EmitHere(_) => st.p - 1,
                ScanOp::EmitBack(_) => st.te - 1,
                ScanOp::EmitByAct => if emitted is Some {
                    st.te - 1
                } else {
                    st.p
                },
                _ => st.p,
            };
            let toks = match emitted {
                Some(k) => st.toks.push((ts0, te, k)),
                None => st.toks,
            };
            if p == n {
                ScanState { cs, ts: ts0, te, act, p, trans, toks, done: true }
            } else {
                let ts1 = if self.to_state_actions[cs] == self.to_code {
                    0
                } else {
                    ts0
                };
                ScanState { cs, ts: ts1, te, act, p: p + 1, trans, toks, done: false }
            }
        }
    }

    /// The scan after `k` steps.
    pub open spec fn iterate(self, cats: Seq<u8>, k: nat) -> ScanState
        decreases k,
    {
        if k == 0 {
            self.start_state()
        } else {
            self.step(cats, self.iterate(cats, (k - 1) as nat))
        }
    }

    /// The scan once it has ended.
    pub open spec fn final_state(self, cats: Seq<u8>) -> ScanState {
        self.iterate(cats, choose|k: nat| (#[trigger] self.iterate(cats, k)).done)
    }

    /// The tokens that the scan of `cats` emits, in order.
    pub open spec fn tokens(self, cats: Seq<u8>) -> Seq<(int, int, u8)> {
        self.final_state(cats).toks
    }
}

/// The syllable byte of the token at `j` of kind `kind`: serial in the high
/// nibble (1 to 15, then 1 again), kind in the low one.
pub open spec fn syllable_value(j: int, kind: u8) -> u8 {
    ((j % 15 + 1) * 16 + kind) as u8
}

/// `info` with its syllable byte set to `v`.
pub open spec fn with_syllable(info: hb_glyph_info_t, v: u8) -> hb_glyph_info_t {
    hb_glyph_info_t {
        glyph_id: info.glyph_id,
        mask: info.mask,
        cluster: info.cluster,
        var1: (info.var1 & 0x00FF_FFFFu32) | ((v as u32) << 24u32),
        var2: info.var2,
    }
}

/// `infos` with the syllable of the records from `a` to before `b` set to `v`.
pub open spec fn label_range(infos: Seq<hb_glyph_info_t>, a: int, b: int, v: u8) -> Seq<
    hb_glyph_info_t,
> {
    Seq::new(infos.len(), |i: int| if a <= i < b { with_syllable(infos[i], v) } else { infos[i] })
}

/// `infos` labelled by the tokens `toks` in order; token positions are mapped
/// to record indices by `idx`.
pub open spec fn label_tokens(
    infos: Seq<hb_glyph_info_t>,
    toks: Seq<(int, int, u8)>,
    idx: Seq<usize>,
) -> Seq<hb_glyph_info_t>
    decreases toks.len(),
{
    if toks.len() == 0 {
        infos
    } else {
        let j = toks.len() - 1;
        let t = toks[j];
        label_range(
            label_tokens(infos, toks.drop_last(), idx),
            idx[t.0] as int,
            idx[t.1] as int,
            syllable_value(j, t.2),
        )
    }
}

/// Labelling records never changes how many there are.
pub proof fn lemma_label_tokens_len(infos: Seq<hb_glyph_info_t>, toks: Seq<(int, int, u8)>, idx: Seq<usize>)
    ensures
        label_tokens(infos, toks, idx).len() == infos.len(),
    decreases toks.len(),
{
    if toks.len() > 0 {
        lemma_label_tokens_len(infos, toks.drop_last(), idx);
    }
}

/// The tokens cover the positions from 0 to before `end`, each a nonempty
/// run that starts where the one before ends.
pub open spec fn tokens_tile(toks: Seq<(int, int, u8)>, end: int) -> bool {
    &&& (toks.len() == 0 ==> end == 0)
    &&& (toks.len() > 0 ==> toks[0].0 == 0 && toks.last().1 == end)
    &&& forall|j: int| 0 <= j < toks.len() ==> (#[trigger] toks[j]).0 < toks[j].1
    &&& forall|j: int| 0 <= j < toks.len() - 1 ==> (#[trigger] toks[j]).1 == toks[j + 1].0
}

/// Whether some token has kind `kind`.
pub open spec fn has_kind(toks: Seq<(int, int, u8)>, kind: u8) -> bool {
    exists|j: int| 0 <= j < toks.len() && (#[trigger] toks[j]).2 == kind
}

/// The shaper categories of the first `len` records.
pub open spec fn shaper_categories(infos: Seq<hb_glyph_info_t>, len: int) -> Seq<u8> {
    Seq::new(len as nat, |i: int| byte2(infos[i].var2))
}

/// Token positions that are record indices.
pub open spec fn identity_positions(len: int) -> Seq<usize> {
    Seq::new((len + 1) as nat, |i: int| i as usize)
}

/// The shaper categories of the first `len` records.
pub fn collect_categories(infos: &Vec<hb_glyph_info_t>, len: usize) -> (r: Vec<u8>)
    requires
        len <= infos@.len(),
    ensures
        r@ == shaper_categories(infos@, len as int),
{
    let mut r: Vec<u8> = Vec::new();
    let mut i: usize = 0;
    while i < len
        invariant
            i <= len <= infos@.len(),
            r@ =~= shaper_categories(infos@, i as int),
        decreases len - i,
    {
        r.push(infos[i].shaper_byte());
        i = i + 1;
    }
    r
}

/// The positions `0..=len`.
pub fn positions_upto(len: usize) -> (r: Vec<usize>)
    requires
        len < usize::MAX,
    ensures
        r@ == identity_positions(len as int),
{
    let mut r: Vec<usize> = Vec::new();
    let mut i: usize = 0;
    while i <= len
        invariant
            i <= len + 1,
            len < usize::MAX,
            r@ =~= Seq::new(i as nat, |x: int| x as usize),
        decreases len + 1 - i,
    {
        r.push(i);
        i = i + 1;
    }
    r
}

/// Once the scan has ended it stays as it is.
proof fn lemma_done_stable(m: MachineTables, cats: Seq<u8>, k: nat, j: nat)
    requires
        m.iterate(cats, k).done,
        k <= j,
    ensures
        m.iterate(cats, j) == m.iterate(cats, k),
    decreases j - k,
{
    if j > k {
        lemma_done_stable(m, cats, k, (j - 1) as nat);
    }
}

/// The final state is the first one that has ended.
proof fn lemma_final_state(m: MachineTables, cats: Seq<u8>, k: nat)
    requires
        m.iterate(cats, k).done,
    ensures
        m.final_state(cats) == m.iterate(cats, k),
{
    let k1 = choose|k: nat| (#[trigger] m.iterate(cats, k)).done;
    assert(m.iterate(cats, k1).done);
    if k1 <= k {
        lemma_done_stable(m, cats, k1, k);
    } else {
        lemma_done_stable(m, cats, k, k1);
    }
}

/// Appending a token adds its kind to those the tokens have.
proof fn lemma_has_kind_push(toks: Seq<(int, int, u8)>, t: (int, int, u8), kind: u8)
    ensures
        has_kind(toks.push(t), kind) == (has_kind(toks, kind) || t.2 == kind),
{
    let r = toks.push(t);
    if has_kind(toks, kind) {
        let j = choose|j: int| 0 <= j < toks.len() && (#[trigger] toks[j]).2 == kind;
        assert(r[j] == toks[j]);
    }
    if t.2 == kind {
        assert(r[r.len() - 1] == t);
    }
    if has_kind(r, kind) && !(t.2 == kind) {
        let j = choose|j: int| 0 <= j < r.len() && (#[trigger] r[j]).2 == kind;
        assert(j < toks.len());
        assert(r[j] == toks[j]);
    }
}

/// A nonempty token that starts where the tiling ends extends it.
proof fn lemma_tile_push(toks: Seq<(int, int, u8)>, end: int, a: int, b: int, kind: u8)
    requires
        tokens_tile(toks, end),
        a == end,
        a < b,
    ensures
        tokens_tile(toks.push((a, b, kind)), b),
{
    let r = toks.push((a, b, kind));
    assert forall|j: int| 0 <= j < r.len() - 1 implies (#[trigger] r[j]).1 == r[j + 1].0 by {
        assert(r[j] == toks[j]);
        if j < toks.len() - 1 {
            assert(r[j + 1] == toks[j + 1]);
        }
    }
    assert forall|j: int| 0 <= j < r.len() implies (#[trigger] r[j]).0 < r[j].1 by {
        if j < toks.len() {
            assert(r[j] == toks[j]);
        }
    }
    if toks.len() > 0 {
        assert(r[0] == toks[0]);
    }
}

/// Sets the syllable of the records from `a` to before `b` to `v`.
fn label_span(infos: &mut Vec<hb_glyph_info_t>, a: usize, b: usize, v: u8)
    requires
        b <= old(infos)@.len(),
    ensures
        final(infos)@ == label_range(old(infos)@, a as int, b as int, v),
{
    let ghost orig = infos@;
    let mut i = a;
    if i < b {
        while i < b
            invariant
                a <= i <= b,
                b <= orig.len(),
                infos@.len() == orig.len(),
                forall|x: int|
                    0 <= x < orig.len() ==> #[trigger] infos@[x] == (if a <= x < i {
                        with_syllable(orig[x], v)
                    } else {
                        orig[x]
                    }),
            decreases b - i,
        {
            let mut g = infos[i];
            g.set_syllable(v);
            proof {
                let w = with_syllable(orig[i as int], v);
                let o = orig[i as int].var1;
                crate::glyph::lemma_with_byte3(o, v);
                crate::glyph::lemma_word_parts(g.var1, w.var1);
            }
            infos.set(i, g);
            i = i + 1;
        }
    }
    assert(infos@ =~= label_range(orig, a as int, b as int, v));
}

/// Labels the records of a syllable found from `start` to before `end`
/// with the serial and the kind, and moves the serial on (1 to 15, then 1
/// again).
pub(crate) fn found_syllable(start: usize, end: usize, syllable_serial: &mut u8, kind: u8, infos: &mut Vec<hb_glyph_info_t>)
    requires
        end <= old(infos)@.len(),
        *old(syllable_serial) <= 15,
        kind < 16,
    ensures
        final(infos)@ == label_range(old(infos)@, start as int, end as int, (*old(syllable_serial) * 16 + kind) as u8),
        *final(syllable_serial) == (if *old(syllable_serial) == 15 { 1 } else { *old(syllable_serial) + 1 }),
{
    let serial = *syllable_serial;
    let v: u8 = (serial << 4u8) | kind;
    assert(v == serial * 16 + kind) by {
        assert(serial <= 15 && kind < 16 ==> (serial << 4u8) | kind == serial * 16 + kind)
            by (bit_vector);
    }
    label_span(infos, start, end, v);
    *syllable_serial = next_serial(serial);
}

/// The serial after `s`: 1 to 15, then 1 again.
fn next_serial(s: u8) -> (r: u8)
    requires
        s <= 15,
    ensures
        r == (if s == 15 { 1 } else { s + 1 }),
{
    let mut r = s + 1;
    if r == 16 {
        r = 1;
    }
    r
}

/// The transition that state `cs` takes at position `p` of `cats` (at the
/// end, its end-of-text transition; `prev` is kept where it has none).
fn next_transition(m: &SyllableMachine, cs: usize, cats: &[u8], p: usize, prev: usize) -> (t: usize)
    requires
        m@.wf(),
        cs < m@.states,
        p <= cats@.len(),
        prev < m@.transitions,
    ensures
        t as int == (if p == cats@.len() {
            if m@.eof_trans[cs as int] > 0 {
                m@.eof_trans[cs as int] - 1
            } else {
                prev as int
            }
        } else {
            m@.trans_for(cs as int, cats@[p as int])
        }),
        m@.edge_ok(cs as int, t as int),
        p == cats@.len() ==> !(m@.op_of(t as int) is EmitNext),
        m@.tiles_text() ==> m@.edge_tiles(cs as int, t as int, p == cats@.len()),
{
    let ghost mt = m@;
    assert(mt.row_ok(cs as int));
    proof {
        if mt.tiles_text() {
            assert(mt.row_tiles(cs as int));
        }
    }
    if p == cats.len() {
        if m.eof_trans[cs] > 0 {
            (m.eof_trans[cs] - 1) as usize
        } else {
            prev
        }
    } else {
        let cat = cats[p];
        let lo = m.trans_keys[2 * cs];
        let hi = m.trans_keys[2 * cs + 1];
        if m.min_cat <= cat && cat <= m.max_cat {
            let c = m.char_class[(cat - m.min_cat) as usize];
            if lo <= c && c <= hi {
                let i = m.index_offsets[cs] as usize + (c - lo) as usize;
                assert(mt.edge_ok(
                    cs as int,
                    mt.indices[mt.index_offsets[cs as int] + c - mt.row_lo(cs as int)] as int,
                ));
                proof {
                    if mt.tiles_text() {
                        assert(mt.edge_tiles(
                            cs as int,
                            mt.indices[mt.index_offsets[cs as int] + c - mt.row_lo(cs as int)] as int,
                            false,
                        ));
                    }
                }
                m.indices[i] as usize
            } else {
                m.index_defaults[cs] as usize
            }
        } else {
            m.index_defaults[cs] as usize
        }
    }
}

/// Runs the machine `m` over the categories `cats` and labels the records of
/// `infos` with the tokens it emits; token positions map to record indices
/// through `idx` (position `cats.len()` to the end of the run).  Returns
/// whether a token of kind `watch` was emitted.
#[verifier::rlimit(40)]
pub fn run_syllable_machine(
    m: &SyllableMachine,
    cats: &[u8],
    idx: &[usize],
    infos: &mut Vec<hb_glyph_info_t>,
    watch: u8,
) -> (seen: bool)
    requires
        m@.wf(),
        cats@.len() < usize::MAX,
        idx@.len() == cats@.len() + 1,
        forall|i: int| 0 <= i < idx@.len() ==> #[trigger] idx@[i] <= old(infos)@.len(),
    ensures
        final(infos)@ == label_tokens(old(infos)@, m@.tokens(cats@), idx@),
        seen == has_kind(m@.tokens(cats@), watch),
        m@.tiles_text() ==> tokens_tile(m@.tokens(cats@), cats@.len() as int),
{
    let ghost mt = m@;
    let ghost orig = infos@;
    let n = cats.len();
    let mut cs: usize = m.start as usize;
    let mut ts: usize = 0;
    let mut te: usize = 0;
    let mut act: u8 = 0;
    let mut p: usize = 0;
    let mut trans: usize = 0;
    let mut serial: u8 = 1;
    let mut seen = false;
    let ghost mut toks: Seq<(int, int, u8)> = seq![];
    let ghost mut last_end: int = 0;
    let ghost mut k: nat = 0;
    assert(mt.iterate(cats@, 0) == mt.start_state());
    loop
        invariant_except_break
            mt == m@,
            mt.wf(),
            n == cats@.len(),
            n < usize::MAX,
            idx@.len() == n + 1,
            forall|i: int| 0 <= i < idx@.len() ==> #[trigger] idx@[i] <= orig.len(),
            infos@.len() == orig.len(),
            cs < mt.states,
            trans < mt.transitions,
            p <= n,
            ts <= n,
            te <= n,
            0 <= last_end <= p,
            cs != mt.start ==> last_end < p,
            mt.fresh[cs as int] ==> last_end < te && te <= p,
            mt.iterate(cats@, k) == (ScanState {
                cs: cs as int,
                ts: ts as int,
                te: te as int,
                act: act as int,
                p: p as int,
                trans: trans as int,
                toks,
                done: false,
            }),
            infos@ == label_tokens(orig, toks, idx@),
            serial as int == toks.len() % 15 + 1,
            seen == has_kind(toks, watch),
            mt.tiles_text() ==> tokens_tile(toks, last_end),
            mt.tiles_text() ==> (cs == mt.start ==> p == last_end),
            mt.tiles_text() ==> (cs != mt.start ==> ts == last_end),
            mt.tiles_text() ==> (mt.act_set[cs as int] ==> mt.act_kind(act as int) is Some),
        ensures
            infos@ == label_tokens(orig, mt.tokens(cats@), idx@),
            seen == has_kind(mt.tokens(cats@), watch),
            mt.tiles_text() ==> tokens_tile(mt.tokens(cats@), n as int),
        decreases n - last_end, n + 1 - p,
    {
        let ghost st = mt.iterate(cats@, k);
        assert(mt.row_ok(cs as int));
        proof {
            if mt.tiles_text() {
                assert(mt.row_tiles(cs as int));
            }
        }
        if m.from_state_actions[cs] == m.from_code {
            ts = p;
        }
        trans = next_transition(m, cs, cats, p, trans);
        let ghost from = cs as int;
        assert(mt.edge_ok(from, trans as int));
        let op = decode_op_exec(m.ops[m.cond_actions[trans] as usize]);
        assert(op == mt.op_of(trans as int));
        cs = m.cond_targs[trans] as usize;
        proof {
            if mt.tiles_text() {
                assert(mt.row_tiles(cs as int));
            }
        }
        let ghost old_p = p as int;
        let ghost old_te = te as int;
        let mut emitted: Option<u8> = None;
        match op {
            ScanOp::Nop => {},
            ScanOp::SetTe => {
                te = p + 1;
            },
            ScanOp::SetTeAct(a) => {
                te = p + 1;
                act = a;
            },
            ScanOp::EmitNext(kd) => {
                te = p + 1;
                emitted = Some(kd);
            },
            ScanOp::EmitHere(kd) => {
                te = p;
                emitted = Some(kd);
            },
            ScanOp::EmitBack(kd) => {
                emitted = Some(kd);
            },
            ScanOp::EmitByAct => {
                if (act as usize) < m.act_kinds.len() {
                    let v = m.act_kinds[act as usize];
                    if v != NO_KIND {
                        emitted = Some(v);
                    }
                }
            },
        }
        if let Some(kd) = emitted {
            assert(kd < 16) by {
                if op is EmitByAct {
                    assert(kind_fits(decode_kind(mt.act_kinds[act as int])));
                } else {
                    assert(kind_fits(op_kind(decode_op(mt.ops[mt.cond_actions[trans as int] as int]))));
                }
            }
            assert((serial * 16 + kd) as u8 == syllable_value(toks.len() as int, kd));
            found_syllable(idx[ts], idx[te], &mut serial, kd, infos);
            seen = seen || kd == watch;
            proof {
                let old_toks = toks;
                toks = toks.push((ts as int, te as int, kd));
                assert(toks.drop_last() =~= old_toks);
                lemma_has_kind_push(old_toks, (ts as int, te as int, kd), watch);
                if mt.tiles_text() {
                    lemma_tile_push(old_toks, last_end, ts as int, te as int, kd);
                }
                last_end = te as int;
            }
            match op {
                ScanOp::EmitHere(_) => {
                    p = p - 1;
                },
                ScanOp::EmitNext(_) => {},
                _ => {
                    p = te - 1;
                },
            }
        }
        proof {
            k = k + 1;
            assert(mt.iterate(cats@, k) == mt.step(cats@, st));
        }
        if p == n {
            proof {
                assert(mt.step(cats@, st) == (ScanState {
                    cs: cs as int,
                    ts: ts as int,
                    te: te as int,
                    act: act as int,
                    p: p as int,
                    trans: trans as int,
                    toks,
                    done: true,
                }));
                lemma_final_state(mt, cats@, k);
            }
            break;
        }
        if m.to_state_actions[cs] == m.to_code {
            ts = 0;
        }
        p = p + 1;
    }
    seen
}

} // verus!
