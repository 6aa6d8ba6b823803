//! Syllables for the Universal Shaping Engine.
use vstd::prelude::*;
use crate::buffer::hb_buffer_t;
use crate::glyph::{hb_glyph_info_t, byte2, UPROPS_IGNORABLE};
use crate::syllable_machine::{
    lemma_label_tokens_len, run_syllable_machine, label_tokens, tokens_tile};
use crate::use_tables::{use_tables, use_machine, lemma_use_tables_wf, lemma_use_tables_tile};

verus! {

/// The use category of a combining grapheme joiner.
pub const CATEGORY_CGJ: u8 = 6;

/// The use category of a zero-width non-joiner.
pub const CATEGORY_ZWNJ: u8 = 14;

/// The use category of a reserved character.
pub const CATEGORY_RSV: u8 = 17;

/// The kinds of syllable that the Universal Shaping Engine machine finds.
#[derive(Clone, Copy, Debug, PartialEq, Eq, Structural)]
pub enum SyllableType {
    IndependentCluster,
    ViramaTerminatedCluster,
    SakotTerminatedCluster,
    StandardCluster,
    NumberJoinerTerminatedCluster,
    NumeralCluster,
    SymbolCluster,
    HieroglyphCluster,
    BrokenCluster,
    NonCluster,
}

/// The number that stands for each kind in a syllable byte.
pub open spec fn syllable_kind_code(k: SyllableType) -> u8 {
    match k {
        SyllableType::IndependentCluster => 0,
        SyllableType::ViramaTerminatedCluster => 1,
        SyllableType::SakotTerminatedCluster => 2,
        SyllableType::StandardCluster => 3,
        SyllableType::NumberJoinerTerminatedCluster => 4,
        SyllableType::NumeralCluster => 5,
        SyllableType::SymbolCluster => 6,
        SyllableType::HieroglyphCluster => 7,
        SyllableType::BrokenCluster => 8,
        SyllableType::NonCluster => 9,
    }
}

impl SyllableType {
    /// The number that stands for this kind in a syllable byte.
    pub fn to_u8(self) -> (r: u8)
        ensures
            r == syllable_kind_code(self),
    {
        match self {
            SyllableType::IndependentCluster => 0,
            SyllableType::ViramaTerminatedCluster => 1,
            SyllableType::SakotTerminatedCluster => 2,
            SyllableType::StandardCluster => 3,
            SyllableType::NumberJoinerTerminatedCluster => 4,
            SyllableType::NumeralCluster => 5,
            SyllableType::SymbolCluster => 6,
            SyllableType::HieroglyphCluster => 7,
            SyllableType::BrokenCluster => 8,
            SyllableType::NonCluster => 9,
        }
    }
}

/// The use category of a record.
pub open spec fn use_category(info: hb_glyph_info_t) -> u8 {
    byte2(info.var2)
}

/// Whether a record is a default-ignorable CGJ or reserved character, which
/// the machine does not see.
pub open spec fn is_ccs_default_ignorable(info: hb_glyph_info_t) -> bool {
    (use_category(info) == CATEGORY_CGJ || use_category(info) == CATEGORY_RSV) && (
    info.spec_unicode_props() & UPROPS_IGNORABLE != 0 && !info.spec_is_ligated())
}

/// The first index from `j` on, before `len`, of a record the machine can
/// see; `len` if there is none.
pub open spec fn next_visible(infos: Seq<hb_glyph_info_t>, len: int, j: int) -> int
    decreases len - j,
{
    if j >= len {
        len
    } else if !is_ccs_default_ignorable(infos[j]) {
        j
    } else {
        next_visible(infos, len, j + 1)
    }
}

/// Whether the machine sees record `i`: not a default-ignorable CGJ or
/// reserved character, and not a zero-width non-joiner before a mark.
pub open spec fn use_included(infos: Seq<hb_glyph_info_t>, len: int, i: int) -> bool {
    &&& !is_ccs_default_ignorable(infos[i])
    &&& (use_category(infos[i]) == CATEGORY_ZWNJ ==> {
        let j = next_visible(infos, len, i + 1);
        j >= len || !infos[j].spec_is_unicode_mark()
    })
}

/// The indices below `k` of the records the machine sees, in order.
pub open spec fn included_positions(infos: Seq<hb_glyph_info_t>, len: int, k: int) -> Seq<usize>
    decreases k,
{
    if k <= 0 {
        seq![]
    } else if use_included(infos, len, k - 1) {
        included_positions(infos, len, k - 1).push((k - 1) as usize)
    } else {
        included_positions(infos, len, k - 1)
    }
}

/// The categories that the machine reads at the positions `pos`.
pub open spec fn categories_at(infos: Seq<hb_glyph_info_t>, pos: Seq<usize>) -> Seq<u8> {
    Seq::new(pos.len(), |k: int| use_category(infos[pos[k] as int]))
}

/// The tokens that the machine finds in the first `len` records.
pub open spec fn use_tokens(infos: Seq<hb_glyph_info_t>, len: int) -> Seq<(int, int, u8)> {
    use_tables().tokens(categories_at(infos, included_positions(infos, len, len)))
}

/// Whether the machine can see a record: it is not a default-ignorable CGJ
/// or reserved character.
fn not_ccs_default_ignorable(info: &hb_glyph_info_t) -> (r: bool)
    ensures
        r == !is_ccs_default_ignorable(*info),
{
    let c = info.shaper_byte();
    !((c == CATEGORY_CGJ || c == CATEGORY_RSV) && info.is_default_ignorable())
}

/// Whether the machine sees record `i` (see `use_included`).
fn included(infos: &Vec<hb_glyph_info_t>, len: usize, i: usize) -> (r: bool)
    requires
        i < len <= infos@.len(),
    ensures
        r == use_included(infos@, len as int, i as int),
{
    if !not_ccs_default_ignorable(&infos[i]) {
        return false;
    }
    if infos[i].shaper_byte() == CATEGORY_ZWNJ {
        let mut j = i + 1;
        while j < len
            invariant
                i < j <= len <= infos@.len(),
                !is_ccs_default_ignorable(infos@[i as int]),
                use_category(infos@[i as int]) == CATEGORY_ZWNJ,
                next_visible(infos@, len as int, i + 1) == next_visible(infos@, len as int, j as int),
            decreases len - j,
        {
            if not_ccs_default_ignorable(&infos[j]) {
                assert(next_visible(infos@, len as int, j as int) == j);
                let mark = infos[j].is_unicode_mark();
                assert(mark == infos@[j as int].spec_is_unicode_mark());
                return !mark;
            }
            j = j + 1;
        }
    }
    true
}

/// Finds the syllables of the buffer for the Universal Shaping Engine and
/// labels every record of a syllable with the syllable's serial number (1 to
/// 15, then 1 again) and kind.  The machine reads the use category of the
/// records it sees (see `use_included`); a syllable labels every record from
/// its first seen record to the next syllable's.
pub fn find_syllables(buffer: &mut hb_buffer_t)
    requires
        old(buffer).wf(),
    ensures
        final(buffer).wf(),
        tokens_tile(
            use_tokens(old(buffer).info@, old(buffer).len as int),
            included_positions(old(buffer).info@, old(buffer).len as int, old(buffer).len as int).len() as int,
        ),
        final(buffer).same_but_info(old(buffer)),
        final(buffer).scratch_flags == old(buffer).scratch_flags,
        final(buffer).info@ == label_tokens(
            old(buffer).info@,
            use_tokens(old(buffer).info@, old(buffer).len as int),
            included_positions(old(buffer).info@, old(buffer).len as int, old(buffer).len as int).push(
                old(buffer).len,
            ),
        ),
{
    let m = use_machine();
    proof {
        lemma_use_tables_wf();
        lemma_use_tables_tile();
    }
    let len = buffer.len;
    let ghost infos = buffer.info@;
    let mut pos: Vec<usize> = Vec::new();
    let mut cats: Vec<u8> = Vec::new();
    let mut i: usize = 0;
    while i < len
        invariant
            len == buffer.len,
            len <= buffer.info@.len(),
            buffer.info@ == infos,
            i <= len,
            len < usize::MAX,
            pos@.len() <= i,
            pos@ == included_positions(infos, len as int, i as int),
            cats@ == categories_at(infos, pos@),
            forall|k: int| 0 <= k < pos@.len() ==> #[trigger] pos@[k] < i,
        decreases len - i,
    {
        if included(&buffer.info, len, i) {
            pos.push(i);
            cats.push(buffer.info[i].shaper_byte());
            assert(cats@ =~= categories_at(infos, pos@));
        }
        i = i + 1;
    }
    pos.push(len);
    let _ = run_syllable_machine(&m, cats.as_slice(), pos.as_slice(), &mut buffer.info, 0);
    proof {
        lemma_label_tokens_len(infos, use_tokens(infos, len as int), pos@);
    }
}

} // verus!
