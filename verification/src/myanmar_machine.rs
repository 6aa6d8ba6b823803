//! Myanmar syllables.
use vstd::prelude::*;
use crate::buffer::{hb_buffer_t, syllables_flagged};
use crate::glyph::hb_glyph_info_t;
use crate::syllable_machine::{
    lemma_label_tokens_len,
    run_syllable_machine, collect_categories, positions_upto, label_tokens, shaper_categories,
    identity_positions, tokens_tile,
};
use crate::myanmar_tables::{myanmar_tables, myanmar_machine, lemma_myanmar_tables_wf, lemma_myanmar_tables_tile};

verus! {

/// The kinds of syllable that the Myanmar machine finds.
#[derive(Clone, Copy, Debug, PartialEq, Eq, Structural)]
pub enum SyllableType {
    ConsonantSyllable,
    PunctuationCluster,
    BrokenCluster,
    NonMyanmarCluster,
}

/// The number that stands for each kind in a syllable byte.
pub open spec fn syllable_kind_code(k: SyllableType) -> u8 {
    match k {
        SyllableType::ConsonantSyllable => 0,
        SyllableType::PunctuationCluster => 1,
        SyllableType::BrokenCluster => 2,
        SyllableType::NonMyanmarCluster => 3,
    }
}

impl SyllableType {
    /// The number that stands for this kind in a syllable byte.
    pub fn to_u8(self) -> (r: u8)
        ensures
            r == syllable_kind_code(self),
    {
        match self {
            SyllableType::ConsonantSyllable => 0,
            SyllableType::PunctuationCluster => 1,
            SyllableType::BrokenCluster => 2,
            SyllableType::NonMyanmarCluster => 3,
        }
    }
}

/// The tokens that the Myanmar machine finds in the first `len` records.
pub open spec fn myanmar_tokens(infos: Seq<hb_glyph_info_t>, len: int) -> Seq<(int, int, u8)> {
    myanmar_tables().tokens(shaper_categories(infos, len))
}

/// Finds the Myanmar syllables of the buffer, from the shaper category of
/// each record, and labels every record of a syllable with the syllable's
/// serial number (1 to 15, then 1 again) and kind.
pub fn find_syllables_myanmar(buffer: &mut hb_buffer_t)
    requires
        old(buffer).wf(),
    ensures
        final(buffer).wf(),
        tokens_tile(myanmar_tokens(old(buffer).info@, old(buffer).len as int), old(buffer).len as int),
        final(buffer).same_but_info(old(buffer)),
        final(buffer).scratch_flags == old(buffer).scratch_flags,
        final(buffer).info@ == label_tokens(
            old(buffer).info@,
            myanmar_tokens(old(buffer).info@, old(buffer).len as int),
            identity_positions(old(buffer).len as int),
        ),
{
    let m = myanmar_machine();
    proof {
        lemma_myanmar_tables_wf();
        lemma_myanmar_tables_tile();
    }
    let cats = collect_categories(&buffer.info, buffer.len);
    let idx = positions_upto(buffer.len);
    let _ = run_syllable_machine(&m, cats.as_slice(), idx.as_slice(), &mut buffer.info, 0);
    proof {
        lemma_label_tokens_len(old(buffer).info@, myanmar_tokens(old(buffer).info@, old(buffer).len as int), identity_positions(old(buffer).len as int));
    }
}

/// Finds the Myanmar syllables (see `find_syllables_myanmar`) and marks
/// each unsafe to break.
pub fn setup_syllables(buffer: &mut hb_buffer_t)
    requires
        old(buffer).wf(),
    ensures
        final(buffer).wf(),
        final(buffer).same_but_info(old(buffer)),
        (final(buffer).info@, final(buffer).scratch_flags) == syllables_flagged(
            label_tokens(
                old(buffer).info@,
                myanmar_tokens(old(buffer).info@, old(buffer).len as int),
                identity_positions(old(buffer).len as int),
            ),
            old(buffer).scratch_flags,
            0,
            old(buffer).len as int,
        ),
{
    let ghost b0 = *buffer;
    find_syllables_myanmar(buffer);
    let ghost b1 = *buffer;
    buffer.unsafe_to_break_syllables();
    proof {
        assert(b1.len == b0.len);
        assert((buffer.info@, buffer.scratch_flags) == syllables_flagged(b1.info@, b1.scratch_flags, 0, b1.len as int));
    }
}

} // verus!
