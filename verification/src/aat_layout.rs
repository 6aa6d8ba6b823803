//! The glyphs that AAT substitution deletes: it marks them with the glyph
//! id 0xFFFF; positioning gives them no advance, and they are removed at
//! the end.

use vstd::prelude::*;
use crate::buffer::{hb_buffer_t, deleted_from};
use crate::glyph::{hb_glyph_info_t, GlyphPosition};

verus! {

/// The glyph id that marks a glyph as deleted.
pub const DELETED_GLYPH: u32 = 0xFFFF;

/// Whether a record is a deleted glyph.
pub fn is_deleted_glyph(info: &hb_glyph_info_t) -> (r: bool)
    ensures
        r == (info.glyph_id == DELETED_GLYPH),
{
    info.glyph_id == DELETED_GLYPH
}

/// A position with no advance and no offset.
pub open spec fn zeroed(p: GlyphPosition) -> GlyphPosition {
    GlyphPosition { x_advance: 0, y_advance: 0, x_offset: 0, y_offset: 0, ..p }
}

/// Takes the advances and offsets of the deleted glyphs away.
pub fn zero_width_deleted_glyphs(buffer: &mut hb_buffer_t)
    requires
        old(buffer).wf(),
    ensures
        final(buffer).wf(),
        final(buffer).pos@ == Seq::new(
            old(buffer).pos@.len(),
            |k: int|
                if k < old(buffer).len && old(buffer).info@[k].glyph_id == DELETED_GLYPH {
                    zeroed(old(buffer).pos@[k])
                } else {
                    old(buffer).pos@[k]
                },
        ),
        *final(buffer) == (hb_buffer_t { pos: final(buffer).pos, ..*old(buffer) }),
{
    let ghost p0 = buffer.pos@;
    let mut i: usize = 0;
    while i < buffer.len
        invariant
            buffer.wf(),
            i <= buffer.len,
            buffer.pos@.len() == p0.len(),
            p0 == old(buffer).pos@,
            forall|k: int| 0 <= k < p0.len() ==> #[trigger] buffer.pos@[k] == (
                if k < i && old(buffer).info@[k].glyph_id == DELETED_GLYPH { zeroed(p0[k]) } else { p0[k] }),
            *buffer == (hb_buffer_t { pos: buffer.pos, ..*old(buffer) }),
        decreases buffer.len - i,
    {
        if buffer.info[i].glyph_id == DELETED_GLYPH {
            let mut p = buffer.pos[i];
            p.x_advance = 0;
            p.y_advance = 0;
            p.x_offset = 0;
            p.y_offset = 0;
            buffer.pos.set(i, p);
        }
        i = i + 1;
    }
    assert(buffer.pos@ =~= Seq::new(
        p0.len(),
        |k: int|
            if k < old(buffer).len && old(buffer).info@[k].glyph_id == DELETED_GLYPH {
                zeroed(p0[k])
            } else {
                p0[k]
            },
    ));
}

/// Removes the deleted glyphs (see `hb_buffer_t::delete_glyphs_inplace`).
pub fn remove_deleted_glyphs(buffer: &mut hb_buffer_t)
    requires
        old(buffer).wf(),
        old(buffer).idx == 0,
    ensures
        final(buffer).wf(),
        deleted_from(is_deleted_glyph, old(buffer).len as int, *old(buffer), *final(buffer), 0, 0),
{
    buffer.delete_glyphs_inplace(is_deleted_glyph);
}

} // verus!
