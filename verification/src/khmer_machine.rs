//! Khmer syllables.
use vstd::prelude::*;
use crate::buffer::hb_buffer_t;
use crate::glyph::SCRATCH_HAS_BROKEN_SYLLABLE;
use crate::syllable_machine::{
    lemma_label_tokens_len,
    run_syllable_machine, collect_categories, positions_upto, label_tokens, shaper_categories,
    identity_positions, tokens_tile,
};
use crate::khmer_tables::{khmer_tables, khmer_machine, lemma_khmer_tables_wf, lemma_khmer_tables_tile};
use crate::syllable_machine::has_kind;

verus! {

/// The kinds of syllable that the Khmer machine finds.
#[derive(Clone, Copy, Debug, PartialEq, Eq, Structural)]
pub enum SyllableType {
    ConsonantSyllable,
    BrokenCluster,
    NonKhmerCluster,
}

/// The number that stands for each kind in a syllable byte.
pub open spec fn syllable_kind_code(k: SyllableType) -> u8 {
    match k {
        SyllableType::ConsonantSyllable => 0,
        SyllableType::BrokenCluster => 1,
        SyllableType::NonKhmerCluster => 2,
    }
}

impl SyllableType {
    /// The number that stands for this kind in a syllable byte.
    pub fn to_u8(self) -> (r: u8)
        ensures
            r == syllable_kind_code(self),
    {
        match self {
            SyllableType::ConsonantSyllable => 0,
            SyllableType::BrokenCluster => 1,
            SyllableType::NonKhmerCluster => 2,
        }
    }
}

/// The tokens that the Khmer machine finds in the first `len` records.
pub open spec fn khmer_tokens(infos: Seq<crate::glyph::hb_glyph_info_t>, len: int) -> Seq<(int, int, u8)> {
    khmer_tables().tokens(shaper_categories(infos, len))
}

/// Finds the Khmer syllables of the buffer, from the shaper category of each
/// record, and labels every record of a syllable with the syllable's serial
/// number (1 to 15, then 1 again) and kind.  A broken cluster sets the
/// scratch flag for broken syllables.
pub fn find_syllables_khmer(buffer: &mut hb_buffer_t)
    requires
        old(buffer).wf(),
    ensures
        final(buffer).wf(),
        tokens_tile(khmer_tokens(old(buffer).info@, old(buffer).len as int), old(buffer).len as int),
        final(buffer).same_but_info(old(buffer)),
        final(buffer).info@ == label_tokens(
            old(buffer).info@,
            khmer_tokens(old(buffer).info@, old(buffer).len as int),
            identity_positions(old(buffer).len as int),
        ),
        final(buffer).scratch_flags == (if has_kind(
            khmer_tokens(old(buffer).info@, old(buffer).len as int),
            syllable_kind_code(SyllableType::BrokenCluster),
        ) {
            old(buffer).scratch_flags | SCRATCH_HAS_BROKEN_SYLLABLE
        } else {
            old(buffer).scratch_flags
        }),
{
    let m = khmer_machine();
    proof {
        lemma_khmer_tables_wf();
        lemma_khmer_tables_tile();
    }
    let cats = collect_categories(&buffer.info, buffer.len);
    let idx = positions_upto(buffer.len);
    let broken = run_syllable_machine(
        &m,
        cats.as_slice(),
        idx.as_slice(),
        &mut buffer.info,
        SyllableType::BrokenCluster.to_u8(),
    );
    proof {
        lemma_label_tokens_len(old(buffer).info@, khmer_tokens(old(buffer).info@, old(buffer).len as int), identity_positions(old(buffer).len as int));
    }
    if broken {
        buffer.scratch_flags = buffer.scratch_flags | SCRATCH_HAS_BROKEN_SYLLABLE;
    }
}

} // verus!
