//! Indic syllables found by a grammar over the Indic category of each glyph.
//!
//! Each production below reads categories from a position and, where it
//! matches, gives the position where its match ends. Alternatives take the
//! first that matches, optional and repeated parts take as much as they
//! can, and nothing is taken back once matched. A syllable is the longest
//! match among the syllable kinds, the earliest kind among equally long
//! ones; one glyph that starts no syllable is a syllable of its own.
use vstd::prelude::*;
use crate::buffer::hb_buffer_t;
use crate::glyph::hb_glyph_info_t;
pub use crate::indic_machine::SyllableType;
use crate::indic_machine::syllable_kind_code;
use crate::syllable_machine::{collect_categories, found_syllable, label_range, shaper_categories, tokens_tile};

verus! {

pub const X: u8 = 0;
pub const C: u8 = 1;
pub const V: u8 = 2;
pub const N: u8 = 3;
pub const H: u8 = 4;
pub const ZWNJ: u8 = 5;
pub const ZWJ: u8 = 6;
pub const M: u8 = 7;
pub const SM: u8 = 8;
pub const A: u8 = 9;
pub const VD: u8 = 9;
pub const PLACEHOLDER: u8 = 10;
pub const DOTTEDCIRCLE: u8 = 11;
pub const RS: u8 = 12;
pub const MPST: u8 = 13;
pub const REPHA: u8 = 14;
pub const RA: u8 = 15;
pub const CM: u8 = 16;
pub const SYMBOL: u8 = 17;
pub const CS: u8 = 18;

/// Whether the category at `p` is `v`.
pub open spec fn at(s: Seq<u8>, p: int, v: u8) -> bool {
    0 <= p < s.len() && s[p] == v
}

/// Past an optional `v` at `p`.
pub open spec fn opt_end(s: Seq<u8>, p: int, v: u8) -> int {
    if at(s, p, v) { p + 1 } else { p }
}

/// `c = (C | Ra)`
pub open spec fn consonant_end(s: Seq<u8>, p: int) -> Option<int> {
    if at(s, p, C) || at(s, p, RA) { Some(p + 1) } else { None }
}

/// `n = ((ZWNJ? RS)? (N N?)?)`, which always matches.
pub open spec fn consonant_modifier_end(s: Seq<u8>, p: int) -> int {
    let q = opt_end(s, p, ZWNJ);
    let a = if at(s, q, RS) { q + 1 } else { p };
    if at(s, a, N) { opt_end(s, a + 1, N) } else { a }
}

/// `z = ZWJ | ZWNJ`
pub open spec fn joiner_end(s: Seq<u8>, p: int) -> Option<int> {
    if at(s, p, ZWJ) || at(s, p, ZWNJ) { Some(p + 1) } else { None }
}

/// Past an optional joiner at `p`.
pub open spec fn opt_joiner_end(s: Seq<u8>, p: int) -> int {
    match joiner_end(s, p) {
        Some(q) => q,
        None => p,
    }
}

/// `reph = (Ra H | Repha)`
pub open spec fn reph_end(s: Seq<u8>, p: int) -> Option<int> {
    if at(s, p, RA) && at(s, p + 1, H) {
        Some(p + 2)
    } else if at(s, p, REPHA) {
        Some(p + 1)
    } else {
        None
    }
}

/// Past an optional reph at `p`.
pub open spec fn opt_reph_end(s: Seq<u8>, p: int) -> int {
    match reph_end(s, p) {
        Some(q) => q,
        None => p,
    }
}

/// `cn = c ZWJ? n?`
pub open spec fn cn_end(s: Seq<u8>, p: int) -> Option<int> {
    match consonant_end(s, p) {
        Some(q) => Some(consonant_modifier_end(s, opt_end(s, q, ZWJ))),
        None => None,
    }
}

/// `symbol = Symbol N?`
pub open spec fn symbol_end(s: Seq<u8>, p: int) -> Option<int> {
    if at(s, p, SYMBOL) { Some(opt_end(s, p + 1, N)) } else { None }
}

/// `z*`: past every joiner from `p` on.
pub open spec fn joiners_end(s: Seq<u8>, p: int) -> int
    decreases s.len() - p,
{
    if 0 <= p < s.len() && (s[p] == ZWJ || s[p] == ZWNJ) { joiners_end(s, p + 1) } else { p }
}

/// `matra_group = z* (M | SM? MPst) N? H?`
pub open spec fn matra_group_end(s: Seq<u8>, p: int) -> Option<int> {
    let z = joiners_end(s, p);
    let m = if at(s, z, M) {
        Some(z + 1)
    } else if at(s, opt_end(s, z, SM), MPST) {
        Some(opt_end(s, z, SM) + 1)
    } else {
        None
    };
    match m {
        Some(q) => Some(opt_end(s, opt_end(s, q, N), H)),
        None => None,
    }
}

/// `(A | VD)*`: past every such category from `p` on.
pub open spec fn vowel_modifiers_end(s: Seq<u8>, p: int) -> int
    decreases s.len() - p,
{
    if 0 <= p < s.len() && (s[p] == A || s[p] == VD) { vowel_modifiers_end(s, p + 1) } else { p }
}

/// `syllable_tail = (z? SM SM? ZWNJ?)? (A | VD)*`, which always matches.
pub open spec fn syllable_tail_end(s: Seq<u8>, p: int) -> int {
    let z = opt_joiner_end(s, p);
    let q = if at(s, z, SM) { opt_end(s, opt_end(s, z + 1, SM), ZWNJ) } else { p };
    vowel_modifiers_end(s, q)
}

/// `halant_group = (z? H (ZWJ N?)?)`
pub open spec fn halant_group_end(s: Seq<u8>, p: int) -> Option<int> {
    let z = opt_joiner_end(s, p);
    if at(s, z, H) {
        Some(if at(s, z + 1, ZWJ) { opt_end(s, z + 2, N) } else { z + 1 })
    } else {
        None
    }
}

/// `final_halant_group = halant_group | H ZWNJ`
pub open spec fn final_halant_group_end(s: Seq<u8>, p: int) -> Option<int> {
    match halant_group_end(s, p) {
        Some(q) => Some(q),
        None => if at(s, p, H) && at(s, p + 1, ZWNJ) { Some(p + 2) } else { None },
    }
}

/// `medial_group = CM?`
pub open spec fn medial_group_end(s: Seq<u8>, p: int) -> int {
    opt_end(s, p, CM)
}

/// A matra group matches nothing, or ends past `p` and within `s`.
pub proof fn lemma_matra_group_bounds(s: Seq<u8>, p: int)
    requires
        0 <= p <= s.len(),
    ensures
        matra_group_end(s, p) matches Some(q) ==> p < q <= s.len(),
{
    lemma_joiners_bounds(s, p);
}

proof fn lemma_joiners_bounds(s: Seq<u8>, p: int)
    requires
        0 <= p <= s.len(),
    ensures
        p <= joiners_end(s, p) <= s.len(),
    decreases s.len() - p,
{
    if 0 <= p < s.len() && (s[p] == ZWJ || s[p] == ZWNJ) {
        lemma_joiners_bounds(s, p + 1);
    }
}

proof fn lemma_vowel_modifiers_bounds(s: Seq<u8>, p: int)
    requires
        0 <= p <= s.len(),
    ensures
        p <= vowel_modifiers_end(s, p) <= s.len(),
    decreases s.len() - p,
{
    if 0 <= p < s.len() && (s[p] == A || s[p] == VD) {
        lemma_vowel_modifiers_bounds(s, p + 1);
    }
}

/// `matra_group*`: past every matra group from `p` on.
pub open spec fn matra_groups_end(s: Seq<u8>, p: int) -> int
    decreases s.len() - p,
{
    if 0 <= p <= s.len() {
        match matra_group_end(s, p) {
            Some(q) => {
                proof {
                    lemma_matra_group_bounds(s, p);
                }
                matra_groups_end(s, q)
            },
            None => p,
        }
    } else {
        p
    }
}

/// `halant_or_matra_group = (final_halant_group | matra_group*)`, which
/// always matches.
pub open spec fn halant_or_matra_group_end(s: Seq<u8>, p: int) -> int {
    match final_halant_group_end(s, p) {
        Some(q) => q,
        None => matra_groups_end(s, p),
    }
}

/// A halant group followed by a `cn` matches nothing, or ends past `p` and
/// within `s`.
pub proof fn lemma_halant_cn_bounds(s: Seq<u8>, p: int)
    requires
        0 <= p <= s.len(),
    ensures
        halant_group_end(s, p) matches Some(q) ==> (p < q <= s.len() && (cn_end(s, q) matches Some(r)
            ==> q < r <= s.len())),
{
}

/// `(halant_group cn)*`: past every such pair from `p` on.
pub open spec fn halant_cns_end(s: Seq<u8>, p: int) -> int
    decreases s.len() - p,
{
    if 0 <= p <= s.len() {
        match halant_group_end(s, p) {
            Some(q) => match cn_end(s, q) {
                Some(r) => {
                    proof {
                        lemma_halant_cn_bounds(s, p);
                    }
                    halant_cns_end(s, r)
                },
                None => p,
            },
            None => p,
        }
    } else {
        p
    }
}

/// `complex_syllable_tail = (halant_group cn)* medial_group
/// halant_or_matra_group syllable_tail`, which always matches.
pub open spec fn complex_syllable_tail_end(s: Seq<u8>, p: int) -> int {
    syllable_tail_end(s, halant_or_matra_group_end(s, medial_group_end(s, halant_cns_end(s, p))))
}

/// `consonant_syllable = (Repha | CS)? cn complex_syllable_tail`
pub open spec fn consonant_syllable_end(s: Seq<u8>, p: int) -> Option<int> {
    let q = if at(s, p, REPHA) || at(s, p, CS) { p + 1 } else { p };
    match cn_end(s, q) {
        Some(r) => Some(complex_syllable_tail_end(s, r)),
        None => None,
    }
}

/// `vowel_syllable = reph? V n? (ZWJ | complex_syllable_tail)`
pub open spec fn vowel_syllable_end(s: Seq<u8>, p: int) -> Option<int> {
    let q = opt_reph_end(s, p);
    if at(s, q, V) {
        let r = opt_end(s, q + 1, N);
        Some(if at(s, r, ZWJ) { r + 1 } else { complex_syllable_tail_end(s, r) })
    } else {
        None
    }
}

/// `standalone_cluster = ((Repha | CS)? PLACEHOLDER | reph? DOTTEDCIRCLE) n?
/// complex_syllable_tail`
pub open spec fn standalone_cluster_end(s: Seq<u8>, p: int) -> Option<int> {
    let q = if at(s, p, REPHA) || at(s, p, CS) { p + 1 } else { p };
    let head = if at(s, q, PLACEHOLDER) {
        Some(q + 1)
    } else if at(s, opt_reph_end(s, p), DOTTEDCIRCLE) {
        Some(opt_reph_end(s, p) + 1)
    } else {
        None
    };
    match head {
        Some(h) => Some(complex_syllable_tail_end(s, opt_end(s, h, N))),
        None => None,
    }
}

/// `symbol_cluster = symbol syllable_tail`
pub open spec fn symbol_cluster_end(s: Seq<u8>, p: int) -> Option<int> {
    match symbol_end(s, p) {
        Some(q) => Some(syllable_tail_end(s, q)),
        None => None,
    }
}

/// `broken_cluster = reph? n? complex_syllable_tail`, which always matches.
pub open spec fn broken_cluster_end(s: Seq<u8>, p: int) -> int {
    complex_syllable_tail_end(s, consonant_modifier_end(s, opt_reph_end(s, p)))
}

/// The longer of a candidate match and the best so far; the candidate wins
/// a tie, as it comes earlier.
pub open spec fn prefer(cand: Option<int>, kind: SyllableType, best: (int, SyllableType)) -> (int, SyllableType) {
    match cand {
        Some(q) => if q >= best.0 { (q, kind) } else { best },
        None => best,
    }
}

/// The syllable that starts at `p` (where `p < s.len()`): where it ends and
/// its kind.
pub open spec fn syllable_at(s: Seq<u8>, p: int) -> (int, SyllableType) {
    prefer(consonant_syllable_end(s, p), SyllableType::ConsonantSyllable,
    prefer(vowel_syllable_end(s, p), SyllableType::VowelSyllable,
    prefer(standalone_cluster_end(s, p), SyllableType::StandaloneCluster,
    prefer(symbol_cluster_end(s, p), SyllableType::SymbolCluster,
    prefer(Some(broken_cluster_end(s, p)), SyllableType::BrokenCluster,
    (p + 1, SyllableType::NonIndicCluster))))))
}

proof fn lemma_matra_groups_bounds(s: Seq<u8>, p: int)
    requires
        0 <= p <= s.len(),
    ensures
        p <= matra_groups_end(s, p) <= s.len(),
    decreases s.len() - p,
{
    lemma_matra_group_bounds(s, p);
    if let Some(q) = matra_group_end(s, p) {
        lemma_matra_groups_bounds(s, q);
    }
}

proof fn lemma_halant_cns_bounds(s: Seq<u8>, p: int)
    requires
        0 <= p <= s.len(),
    ensures
        p <= halant_cns_end(s, p) <= s.len(),
    decreases s.len() - p,
{
    lemma_halant_cn_bounds(s, p);
    if let Some(q) = halant_group_end(s, p) {
        if let Some(r) = cn_end(s, q) {
            lemma_halant_cns_bounds(s, r);
        }
    }
}

/// A complex syllable tail from `p` ends within `s`, at `p` or later.
pub proof fn lemma_complex_syllable_tail_bounds(s: Seq<u8>, p: int)
    requires
        0 <= p <= s.len(),
    ensures
        p <= complex_syllable_tail_end(s, p) <= s.len(),
{
    lemma_halant_cns_bounds(s, p);
    let a = medial_group_end(s, halant_cns_end(s, p));
    lemma_matra_groups_bounds(s, a);
    let b = halant_or_matra_group_end(s, a);
    let z = opt_joiner_end(s, b);
    let q = if at(s, z, SM) { opt_end(s, opt_end(s, z + 1, SM), ZWNJ) } else { b };
    lemma_vowel_modifiers_bounds(s, q);
}

/// The syllable at a position within `s` takes one category or more, and
/// ends within `s`.
pub proof fn lemma_syllable_bounds(s: Seq<u8>, p: int)
    requires
        0 <= p < s.len(),
    ensures
        p < syllable_at(s, p).0 <= s.len(),
{
    let q = if at(s, p, REPHA) || at(s, p, CS) { p + 1 } else { p };
    if let Some(r) = cn_end(s, q) {
        lemma_complex_syllable_tail_bounds(s, r);
    }
    let q = opt_reph_end(s, p);
    let r = opt_end(s, q + 1, N);
    if at(s, q, V) && !at(s, r, ZWJ) {
        lemma_complex_syllable_tail_bounds(s, r);
    }
    let q = if at(s, p, REPHA) || at(s, p, CS) { p + 1 } else { p };
    let h = if at(s, q, PLACEHOLDER) { q + 1 } else { opt_reph_end(s, p) + 1 };
    if h <= s.len() {
        lemma_complex_syllable_tail_bounds(s, opt_end(s, h, N));
    }
    if let Some(q) = symbol_end(s, p) {
        let z = opt_joiner_end(s, q);
        let t = if at(s, z, SM) { opt_end(s, opt_end(s, z + 1, SM), ZWNJ) } else { q };
        lemma_vowel_modifiers_bounds(s, t);
    }
    lemma_complex_syllable_tail_bounds(s, consonant_modifier_end(s, opt_reph_end(s, p)));
}

/// The syllables of `s` from `p` on, in order: where each starts, where it
/// ends and the number of its kind.
pub open spec fn syllables_from(s: Seq<u8>, p: int) -> Seq<(int, int, u8)>
    decreases s.len() - p,
{
    if 0 <= p < s.len() {
        let (q, kind) = syllable_at(s, p);
        proof {
            lemma_syllable_bounds(s, p);
        }
        seq![(p, q, syllable_kind_code(kind))] + syllables_from(s, q)
    } else {
        Seq::empty()
    }
}

/// The serial of the `j`th syllable: 0 for the first, then 1 to 15 and 1
/// again.
pub open spec fn serial_of(j: int) -> int {
    if j == 0 { 0 } else { (j - 1) % 15 + 1 }
}

/// `infos` with each syllable of `toks` labelled by its serial and kind.
pub open spec fn labelled(infos: Seq<hb_glyph_info_t>, toks: Seq<(int, int, u8)>) -> Seq<hb_glyph_info_t>
    decreases toks.len(),
{
    if toks.len() == 0 {
        infos
    } else {
        let j = toks.len() - 1;
        let t = toks[j];
        label_range(labelled(infos, toks.drop_last()), t.0, t.1, (serial_of(j) * 16 + t.2) as u8)
    }
}

/// An end position as a mathematical integer.
pub open spec fn end_of(r: Option<usize>) -> Option<int> {
    match r {
        Some(q) => Some(q as int),
        None => None,
    }
}

/// Whether the category at `p` is `v`.
fn is_at(c: &[u8], p: usize, v: u8) -> (r: bool)
    ensures
        r == at(c@, p as int, v),
        c@.len() <= usize::MAX,
{
    p < c.len() && c[p] == v
}

/// Past an optional `v` at `p`.
fn skip_opt(c: &[u8], p: usize, v: u8) -> (r: usize)
    requires
        p <= c@.len(),
    ensures
        r == opt_end(c@, p as int, v),
{
    if is_at(c, p, v) { p + 1 } else { p }
}

/// `c = (C | Ra)`
fn is_consonant(c: &[u8], p: usize) -> (r: Option<usize>)
    requires
        p <= c@.len(),
    ensures
        end_of(r) == consonant_end(c@, p as int),
{
    if is_at(c, p, C) || is_at(c, p, RA) { Some(p + 1) } else { None }
}

/// `n = ((ZWNJ? RS)? (N N?)?)`
fn is_consonant_modifier(c: &[u8], p: usize) -> (r: usize)
    requires
        p <= c@.len(),
    ensures
        r == consonant_modifier_end(c@, p as int),
{
    let q = skip_opt(c, p, ZWNJ);
    let a = if is_at(c, q, RS) { q + 1 } else { p };
    if is_at(c, a, N) { skip_opt(c, a + 1, N) } else { a }
}

/// `z = ZWJ | ZWNJ`
fn is_joiner(c: &[u8], p: usize) -> (r: Option<usize>)
    requires
        p <= c@.len(),
    ensures
        end_of(r) == joiner_end(c@, p as int),
{
    if is_at(c, p, ZWJ) || is_at(c, p, ZWNJ) { Some(p + 1) } else { None }
}

/// `reph = (Ra H | Repha)`
fn possible_reph(c: &[u8], p: usize) -> (r: Option<usize>)
    requires
        p <= c@.len(),
    ensures
        end_of(r) == reph_end(c@, p as int),
{
    if is_at(c, p, RA) && is_at(c, p + 1, H) {
        Some(p + 2)
    } else if is_at(c, p, REPHA) {
        Some(p + 1)
    } else {
        None
    }
}

/// `cn = c ZWJ? n?`
fn cn(c: &[u8], p: usize) -> (r: Option<usize>)
    requires
        p <= c@.len(),
    ensures
        end_of(r) == cn_end(c@, p as int),
{
    match is_consonant(c, p) {
        Some(q) => Some(is_consonant_modifier(c, skip_opt(c, q, ZWJ))),
        None => None,
    }
}

/// `symbol = Symbol N?`
fn symbol(c: &[u8], p: usize) -> (r: Option<usize>)
    requires
        p <= c@.len(),
    ensures
        end_of(r) == symbol_end(c@, p as int),
{
    if is_at(c, p, SYMBOL) { Some(skip_opt(c, p + 1, N)) } else { None }
}

/// `z*`
fn skip_joiners(c: &[u8], p: usize) -> (r: usize)
    requires
        p <= c@.len(),
    ensures
        r == joiners_end(c@, p as int),
{
    let mut q = p;
    while q < c.len() && (c[q] == ZWJ || c[q] == ZWNJ)
        invariant
            p <= q <= c@.len(),
            joiners_end(c@, q as int) == joiners_end(c@, p as int),
        decreases c@.len() - q,
    {
        q = q + 1;
    }
    q
}

/// `matra_group = z* (M | SM? MPst) N? H?`
fn matra_group(c: &[u8], p: usize) -> (r: Option<usize>)
    requires
        p <= c@.len(),
    ensures
        end_of(r) == matra_group_end(c@, p as int),
{
    proof {
        lemma_joiners_bounds(c@, p as int);
    }
    let z = skip_joiners(c, p);
    let m = if is_at(c, z, M) {
        Some(z + 1)
    } else if is_at(c, skip_opt(c, z, SM), MPST) {
        Some(skip_opt(c, z, SM) + 1)
    } else {
        None
    };
    match m {
        Some(q) => Some(skip_opt(c, skip_opt(c, q, N), H)),
        None => None,
    }
}

/// `(A | VD)*`
fn skip_vowel_modifiers(c: &[u8], p: usize) -> (r: usize)
    requires
        p <= c@.len(),
    ensures
        r == vowel_modifiers_end(c@, p as int),
{
    let mut q = p;
    while q < c.len() && (c[q] == A || c[q] == VD)
        invariant
            p <= q <= c@.len(),
            vowel_modifiers_end(c@, q as int) == vowel_modifiers_end(c@, p as int),
        decreases c@.len() - q,
    {
        q = q + 1;
    }
    q
}

/// `syllable_tail = (z? SM SM? ZWNJ?)? (A | VD)*`
fn syllable_tail(c: &[u8], p: usize) -> (r: usize)
    requires
        p <= c@.len(),
    ensures
        r == syllable_tail_end(c@, p as int),
{
    let z = match is_joiner(c, p) {
        Some(q) => q,
        None => p,
    };
    let q = if is_at(c, z, SM) { skip_opt(c, skip_opt(c, z + 1, SM), ZWNJ) } else { p };
    skip_vowel_modifiers(c, q)
}

/// `halant_group = (z? H (ZWJ N?)?)`
fn halant_group(c: &[u8], p: usize) -> (r: Option<usize>)
    requires
        p <= c@.len(),
    ensures
        end_of(r) == halant_group_end(c@, p as int),
{
    let z = match is_joiner(c, p) {
        Some(q) => q,
        None => p,
    };
    if is_at(c, z, H) {
        Some(if is_at(c, z + 1, ZWJ) { skip_opt(c, z + 2, N) } else { z + 1 })
    } else {
        None
    }
}

/// `final_halant_group = halant_group | H ZWNJ`
fn final_halant_group(c: &[u8], p: usize) -> (r: Option<usize>)
    requires
        p <= c@.len(),
    ensures
        end_of(r) == final_halant_group_end(c@, p as int),
{
    match halant_group(c, p) {
        Some(q) => Some(q),
        None => if is_at(c, p, H) && is_at(c, p + 1, ZWNJ) { Some(p + 2) } else { None },
    }
}

/// `medial_group = CM?`
fn medial_group(c: &[u8], p: usize) -> (r: usize)
    requires
        p <= c@.len(),
    ensures
        r == medial_group_end(c@, p as int),
{
    skip_opt(c, p, CM)
}

/// `matra_group*`
fn matra_groups(c: &[u8], p: usize) -> (r: usize)
    requires
        p <= c@.len(),
    ensures
        r == matra_groups_end(c@, p as int),
{
    let mut q = p;
    loop
        invariant
            p <= q <= c@.len(),
            matra_groups_end(c@, q as int) == matra_groups_end(c@, p as int),
        decreases c@.len() - q,
    {
        proof {
            lemma_matra_group_bounds(c@, q as int);
        }
        match matra_group(c, q) {
            Some(e) => {
                q = e;
            },
            None => {
                return q;
            },
        }
    }
}

/// `halant_or_matra_group = (final_halant_group | matra_group*)`
fn halant_or_matra_group(c: &[u8], p: usize) -> (r: usize)
    requires
        p <= c@.len(),
    ensures
        r == halant_or_matra_group_end(c@, p as int),
{
    match final_halant_group(c, p) {
        Some(q) => q,
        None => matra_groups(c, p),
    }
}

/// `(halant_group cn)*`
fn halant_cns(c: &[u8], p: usize) -> (r: usize)
    requires
        p <= c@.len(),
    ensures
        r == halant_cns_end(c@, p as int),
{
    let mut q = p;
    loop
        invariant
            p <= q <= c@.len(),
            halant_cns_end(c@, q as int) == halant_cns_end(c@, p as int),
        decreases c@.len() - q,
    {
        proof {
            lemma_halant_cn_bounds(c@, q as int);
        }
        match halant_group(c, q) {
            Some(h) => match cn(c, h) {
                Some(e) => {
                    q = e;
                },
                None => {
                    return q;
                },
            },
            None => {
                return q;
            },
        }
    }
}

/// `complex_syllable_tail = (halant_group cn)* medial_group
/// halant_or_matra_group syllable_tail`
fn complex_syllable_tail(c: &[u8], p: usize) -> (r: usize)
    requires
        p <= c@.len(),
    ensures
        r == complex_syllable_tail_end(c@, p as int),
{
    proof {
        lemma_halant_cns_bounds(c@, p as int);
        lemma_matra_groups_bounds(c@, medial_group_end(c@, halant_cns_end(c@, p as int)));
    }
    let a = medial_group(c, halant_cns(c, p));
    syllable_tail(c, halant_or_matra_group(c, a))
}

/// `consonant_syllable = (Repha | CS)? cn complex_syllable_tail`
fn consonant_syllable(c: &[u8], p: usize) -> (r: Option<usize>)
    requires
        p <= c@.len(),
    ensures
        end_of(r) == consonant_syllable_end(c@, p as int),
{
    let q = if is_at(c, p, REPHA) || is_at(c, p, CS) { p + 1 } else { p };
    match cn(c, q) {
        Some(e) => Some(complex_syllable_tail(c, e)),
        None => None,
    }
}

/// `vowel_syllable = reph? V n? (ZWJ | complex_syllable_tail)`
fn vowel_syllable(c: &[u8], p: usize) -> (r: Option<usize>)
    requires
        p <= c@.len(),
    ensures
        end_of(r) == vowel_syllable_end(c@, p as int),
{
    let q = match possible_reph(c, p) {
        Some(e) => e,
        None => p,
    };
    if is_at(c, q, V) {
        let e = skip_opt(c, q + 1, N);
        Some(if is_at(c, e, ZWJ) { e + 1 } else { complex_syllable_tail(c, e) })
    } else {
        None
    }
}

/// `standalone_cluster = ((Repha | CS)? PLACEHOLDER | reph? DOTTEDCIRCLE) n?
/// complex_syllable_tail`
fn standalone_cluster(c: &[u8], p: usize) -> (r: Option<usize>)
    requires
        p <= c@.len(),
    ensures
        end_of(r) == standalone_cluster_end(c@, p as int),
{
    let q = if is_at(c, p, REPHA) || is_at(c, p, CS) { p + 1 } else { p };
    let rp = match possible_reph(c, p) {
        Some(e) => e,
        None => p,
    };
    let head = if is_at(c, q, PLACEHOLDER) {
        Some(q + 1)
    } else if is_at(c, rp, DOTTEDCIRCLE) {
        Some(rp + 1)
    } else {
        None
    };
    match head {
        Some(h) => Some(complex_syllable_tail(c, skip_opt(c, h, N))),
        None => None,
    }
}

/// `symbol_cluster = symbol syllable_tail`
fn symbol_cluster(c: &[u8], p: usize) -> (r: Option<usize>)
    requires
        p <= c@.len(),
    ensures
        end_of(r) == symbol_cluster_end(c@, p as int),
{
    match symbol(c, p) {
        Some(q) => Some(syllable_tail(c, q)),
        None => None,
    }
}

/// `broken_cluster = reph? n? complex_syllable_tail`
fn broken_cluster(c: &[u8], p: usize) -> (r: usize)
    requires
        p <= c@.len(),
    ensures
        r == broken_cluster_end(c@, p as int),
{
    let q = match possible_reph(c, p) {
        Some(e) => e,
        None => p,
    };
    complex_syllable_tail(c, is_consonant_modifier(c, q))
}

/// The longer of a candidate match and the best so far.
fn keep_longer(cand: Option<usize>, kind: SyllableType, best: (usize, SyllableType)) -> (r: (usize, SyllableType))
    ensures
        (r.0 as int, r.1) == prefer(end_of(cand), kind, (best.0 as int, best.1)),
{
    match cand {
        Some(q) => if q >= best.0 { (q, kind) } else { best },
        None => best,
    }
}

/// The syllable that starts at `p`: where it ends and its kind.
fn get_syllable(c: &[u8], p: usize) -> (r: (usize, SyllableType))
    requires
        p < c@.len() <= usize::MAX,
    ensures
        (r.0 as int, r.1) == syllable_at(c@, p as int),
{
    let best = (p + 1, SyllableType::NonIndicCluster);
    let best = keep_longer(Some(broken_cluster(c, p)), SyllableType::BrokenCluster, best);
    let best = keep_longer(symbol_cluster(c, p), SyllableType::SymbolCluster, best);
    let best = keep_longer(standalone_cluster(c, p), SyllableType::StandaloneCluster, best);
    let best = keep_longer(vowel_syllable(c, p), SyllableType::VowelSyllable, best);
    keep_longer(consonant_syllable(c, p), SyllableType::ConsonantSyllable, best)
}

/// The tokens run one after another from `from` to `to`, each nonempty.
pub open spec fn tiles(toks: Seq<(int, int, u8)>, from: int, to: int) -> bool {
    &&& (toks.len() == 0 ==> from == to)
    &&& (toks.len() > 0 ==> toks[0].0 == from && toks.last().1 == to)
    &&& forall|j: int| 0 <= j < toks.len() ==> (#[trigger] toks[j]).0 < toks[j].1
    &&& forall|j: int| 0 <= j < toks.len() - 1 ==> (#[trigger] toks[j]).1 == toks[j + 1].0
}

/// The syllables from `p` on cover the categories from `p` to the end, one
/// after another.
pub proof fn lemma_syllables_tile(s: Seq<u8>, p: int)
    requires
        0 <= p <= s.len(),
    ensures
        tiles(syllables_from(s, p), p, s.len() as int),
    decreases s.len() - p,
{
    if p < s.len() {
        lemma_syllable_bounds(s, p);
        let q = syllable_at(s, p).0;
        lemma_syllables_tile(s, q);
        let rest = syllables_from(s, q);
        let all = syllables_from(s, p);
        assert(all == seq![(p, q, syllable_kind_code(syllable_at(s, p).1))] + rest);
        assert forall|j: int| 0 <= j < all.len() - 1 implies (#[trigger] all[j]).1 == all[j + 1].0 by {
            if j > 0 {
                assert(all[j] == rest[j - 1]);
                assert(all[j + 1] == rest[j]);
            }
        }
        assert forall|j: int| 0 <= j < all.len() implies (#[trigger] all[j]).0 < all[j].1 by {
            if j > 0 {
                assert(all[j] == rest[j - 1]);
            }
        }
    }
}

proof fn lemma_labelled_push(infos: Seq<hb_glyph_info_t>, toks: Seq<(int, int, u8)>, t: (int, int, u8))
    ensures
        labelled(infos, toks.push(t)) == label_range(labelled(infos, toks), t.0, t.1, (serial_of(toks.len() as int) * 16 + t.2) as u8),
{
    assert(toks.push(t).drop_last() =~= toks);
}

proof fn lemma_labelled_len(infos: Seq<hb_glyph_info_t>, toks: Seq<(int, int, u8)>)
    ensures
        labelled(infos, toks).len() == infos.len(),
    decreases toks.len(),
{
    if toks.len() > 0 {
        lemma_labelled_len(infos, toks.drop_last());
    }
}

proof fn lemma_next_syllable(s: Seq<u8>, p: int, k: int, all: Seq<(int, int, u8)>)
    requires
        0 <= p < s.len(),
        0 <= k <= all.len(),
        all == all.take(k) + syllables_from(s, p),
    ensures
        k < all.len(),
        all[k] == (p, syllable_at(s, p).0, syllable_kind_code(syllable_at(s, p).1)),
        all.take(k + 1) == all.take(k).push(all[k]),
        all == all.take(k + 1) + syllables_from(s, syllable_at(s, p).0),
{
    let t = (p, syllable_at(s, p).0, syllable_kind_code(syllable_at(s, p).1));
    let rest = syllables_from(s, syllable_at(s, p).0);
    assert(syllables_from(s, p) == seq![t] + rest);
    assert(all[k] == (all.take(k) + syllables_from(s, p))[k]);
    assert(all.take(k + 1) =~= all.take(k).push(all[k]));
    assert(all =~= all.take(k + 1) + rest);
}

proof fn lemma_next_serial(k: int)
    requires
        k >= 0,
    ensures
        0 <= serial_of(k) <= 15,
        serial_of(k + 1) == (if serial_of(k) == 15 { 1 } else { serial_of(k) + 1 }),
{
}

/// Finds the Indic syllables of the buffer by the grammar, from the Indic
/// category of every record, and labels every record of the `j`th syllable
/// with its serial (0 for the first, then 1 to 15 and 1 again) and kind.
pub fn find_syllables_indic(buffer: &mut hb_buffer_t)
    ensures
        tiles(
            syllables_from(shaper_categories(old(buffer).info@, old(buffer).info@.len() as int), 0),
            0,
            old(buffer).info@.len() as int,
        ),
        final(buffer).info@ == labelled(
            old(buffer).info@,
            syllables_from(shaper_categories(old(buffer).info@, old(buffer).info@.len() as int), 0),
        ),
        *final(buffer) == (hb_buffer_t { info: final(buffer).info, ..*old(buffer) }),
{
    let ghost info0 = buffer.info@;
    let cats = collect_categories(&buffer.info, buffer.info.len());
    let ghost all = syllables_from(cats@, 0);
    proof {
        lemma_syllables_tile(cats@, 0);
    }
    let mut p: usize = 0;
    let mut serial: u8 = 0;
    let ghost mut k: int = 0;
    while p < cats.len()
        invariant
            p <= cats@.len(),
            cats@ == shaper_categories(info0, info0.len() as int),
            all == syllables_from(cats@, 0),
            0 <= k <= all.len(),
            all == all.take(k) + syllables_from(cats@, p as int),
            buffer.info@ == labelled(info0, all.take(k)),
            serial as int == serial_of(k),
            *buffer == (hb_buffer_t { info: buffer.info, ..*old(buffer) }),
        decreases cats@.len() - p,
    {
        proof {
            lemma_syllable_bounds(cats@, p as int);
        }
        let (q, kind) = get_syllable(cats.as_slice(), p);
        proof {
            lemma_next_syllable(cats@, p as int, k, all);
            lemma_labelled_push(info0, all.take(k), all[k]);
            lemma_next_serial(k);
            lemma_labelled_len(info0, all.take(k));
        }
        found_syllable(p, q, &mut serial, kind.to_u8(), &mut buffer.info);
        proof {
            k = k + 1;
        }
        p = q;
    }
    proof {
        assert(all.take(k) =~= all);
    }
}

} // verus!
