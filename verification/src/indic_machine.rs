//! Indic syllables.
use vstd::prelude::*;
use crate::buffer::hb_buffer_t;
use crate::glyph::hb_glyph_info_t;
use crate::syllable_machine::{
    lemma_label_tokens_len,
    run_syllable_machine, collect_categories, positions_upto, label_tokens, shaper_categories,
    identity_positions, tokens_tile,
};
use crate::indic_tables::{indic_tables, indic_machine, lemma_indic_tables_wf, lemma_indic_tables_tile};

verus! {

/// The kinds of syllable that the Indic machine finds.
#[derive(Clone, Copy, Debug, PartialEq, Eq, Structural)]
pub enum SyllableType {
    ConsonantSyllable,
    VowelSyllable,
    StandaloneCluster,
    SymbolCluster,
    BrokenCluster,
    NonIndicCluster,
}

/// The number that stands for each kind in a syllable byte.
pub open spec fn syllable_kind_code(k: SyllableType) -> u8 {
    match k {
        SyllableType::ConsonantSyllable => 0,
        SyllableType::VowelSyllable => 1,
        SyllableType::StandaloneCluster => 2,
        SyllableType::SymbolCluster => 3,
        SyllableType::BrokenCluster => 4,
        SyllableType::NonIndicCluster => 5,
    }
}

impl SyllableType {
    /// The number that stands for this kind in a syllable byte.
    pub fn to_u8(self) -> (r: u8)
        ensures
            r == syllable_kind_code(self),
    {
        match self {
            SyllableType::ConsonantSyllable => 0,
            SyllableType::VowelSyllable => 1,
            SyllableType::StandaloneCluster => 2,
            SyllableType::SymbolCluster => 3,
            SyllableType::BrokenCluster => 4,
            SyllableType::NonIndicCluster => 5,
        }
    }
}

/// The tokens that the Indic machine finds in the first `len` records.
pub open spec fn indic_tokens(infos: Seq<hb_glyph_info_t>, len: int) -> Seq<(int, int, u8)> {
    indic_tables().tokens(shaper_categories(infos, len))
}

/// Finds the Indic syllables of the buffer, from the shaper category of
/// each record, and labels every record of a syllable with the syllable's
/// serial number (1 to 15, then 1 again) and kind.
pub fn find_syllables_indic(buffer: &mut hb_buffer_t)
    requires
        old(buffer).wf(),
    ensures
        final(buffer).wf(),
        tokens_tile(indic_tokens(old(buffer).info@, old(buffer).len as int), old(buffer).len as int),
        final(buffer).same_but_info(old(buffer)),
        final(buffer).scratch_flags == old(buffer).scratch_flags,
        final(buffer).info@ == label_tokens(
            old(buffer).info@,
            indic_tokens(old(buffer).info@, old(buffer).len as int),
            identity_positions(old(buffer).len as int),
        ),
{
    let m = indic_machine();
    proof {
        lemma_indic_tables_wf();
        lemma_indic_tables_tile();
    }
    let cats = collect_categories(&buffer.info, buffer.len);
    let idx = positions_upto(buffer.len);
    let _ = run_syllable_machine(&m, cats.as_slice(), idx.as_slice(), &mut buffer.info, 0);
    proof {
        lemma_label_tokens_len(old(buffer).info@, indic_tokens(old(buffer).info@, old(buffer).len as int), identity_positions(old(buffer).len as int));
    }
}

} // verus!
