#![allow(non_camel_case_types)]
use vstd::prelude::*;

pub mod flags;
pub mod unicode;
pub mod glyph;
pub mod common;
pub mod text_parser;
pub mod buffer;
pub mod buffer_moves;
pub mod syllable_machine;
pub mod khmer_tables;
pub mod myanmar_tables;
pub mod indic_tables;
pub mod khmer_machine;
pub mod myanmar_machine;
pub mod indic_machine;
pub mod universal_machine;
pub mod universal;
pub mod arabic;
pub mod arabic_table;
pub mod hebrew;
pub mod set_digest;
pub mod aat_map;
pub mod aat_layout_common;
pub mod use_tables;
pub mod normalize;
pub mod khmer;
pub mod aat_layout;
pub mod syllabic;
pub mod stch;
pub mod complex;
pub mod ot_shape;
pub mod myanmar;

verus! {
}
