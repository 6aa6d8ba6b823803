//! The decisions of a shape plan: which tables position the glyphs, and
//! how marks are zeroed and positioned, from what the font and the shaper
//! offer.
use vstd::prelude::*;

verus! {

/// What the plan's decisions depend on: the tables the font has, what its
/// lookups offer, and what the script's shaper asks for.
#[derive(Clone, Copy, Debug)]
pub struct PlanFacts {
    /// The font has a `kerx` table.
    pub has_kerx: bool,
    /// The font has a `GSUB` table.
    pub has_gsub: bool,
    /// The font has a `GPOS` table.
    pub has_gpos_table: bool,
    /// The shaper wants GPOS of another script than the one chosen.
    pub disable_gpos: bool,
    /// GPOS has a kerning feature for the direction.
    pub has_gpos_kern: bool,
    /// The font has a `kern` table.
    pub has_kerning: bool,
    /// The font's `kern` table has state-machine subtables.
    pub has_machine_kerning: bool,
    /// The font's `kern` table has cross-stream subtables.
    pub has_cross_kerning: bool,
    /// The shaper zeroes the advances of marks.
    pub script_zero_marks: bool,
    /// The shaper positions marks by fallback.
    pub script_fallback_mark_positioning: bool,
    /// Substitutions come from the `morx` table.
    pub apply_morx: bool,
    /// Tracking was asked for.
    pub requested_tracking: bool,
    /// The font has a `trak` table.
    pub has_trak: bool,
}

/// The plan's decisions on positioning.
#[derive(Clone, Copy, Debug, PartialEq, Eq, Structural)]
pub struct PlanDecisions {
    pub apply_gpos: bool,
    pub apply_kerx: bool,
    pub apply_kern: bool,
    pub apply_fallback_kern: bool,
    pub zero_marks: bool,
    pub adjust_mark_positioning_when_zeroing: bool,
    pub fallback_mark_positioning: bool,
    pub apply_trak: bool,
}

/// Whether the font's GPOS positions glyphs: it has one, and the shaper
/// does not turn it off.
pub open spec fn spec_has_gpos(f: PlanFacts) -> bool {
    !f.disable_gpos && f.has_gpos_table
}

/// Whether `kerx` positions: it exists, unless GPOS is preferred (when GSUB
/// and GPOS are both there) and GPOS has kerning to do the job.
pub open spec fn spec_apply_kerx(f: PlanFacts) -> bool {
    f.has_kerx && !(f.has_gsub && spec_has_gpos(f) && f.has_gpos_kern)
}

/// Whether GPOS positions: the font's GPOS does, unless the font has `kerx`
/// and lacks GSUB or a usable GPOS.
pub open spec fn spec_apply_gpos(f: PlanFacts) -> bool {
    !(f.has_kerx && !(f.has_gsub && spec_has_gpos(f))) && spec_has_gpos(f)
}

/// Whether the `kern` table positions: neither `kerx` nor a GPOS with
/// kerning does, and the font has the table.
pub open spec fn spec_apply_kern(f: PlanFacts) -> bool {
    !f.has_kerx && (!f.has_gpos_kern || !spec_apply_gpos(f)) && f.has_kerning
}

/// The decisions, each as the plan states it.
pub open spec fn plan_decisions(f: PlanFacts) -> PlanDecisions {
    let gpos = spec_apply_gpos(f);
    let kerx = spec_apply_kerx(f);
    let kern = spec_apply_kern(f);
    let adjust = !gpos && !kerx && (!kern || !f.has_cross_kerning);
    PlanDecisions {
        apply_gpos: gpos,
        apply_kerx: kerx,
        apply_kern: kern,
        apply_fallback_kern: !(gpos || kerx || kern),
        zero_marks: f.script_zero_marks && !kerx && (!kern || !f.has_machine_kerning),
        adjust_mark_positioning_when_zeroing: adjust && !f.apply_morx,
        fallback_mark_positioning: adjust && f.script_fallback_mark_positioning,
        apply_trak: f.requested_tracking && f.has_trak,
    }
}

/// Decides who positions the glyphs (GPOS, `kerx`, `kern`, or the
/// fallback kerning), whether marks are zeroed, how their positions are
/// adjusted, and whether tracking applies.
pub fn decide_positioning(f: &PlanFacts) -> (r: PlanDecisions)
    ensures
        r == plan_decisions(*f),
{
    let has_gpos = !f.disable_gpos && f.has_gpos_table;
    let mut apply_gpos = false;
    let mut apply_kerx = false;
    let mut apply_kern = false;
    // Prefer GPOS over kerx if GSUB is present.
    if f.has_kerx && !(f.has_gsub && has_gpos) {
        apply_kerx = true;
    } else if has_gpos {
        apply_gpos = true;
    }
    if !apply_kerx && (!f.has_gpos_kern || !apply_gpos) {
        if f.has_kerx {
            apply_kerx = true;
        } else if f.has_kerning {
            apply_kern = true;
        }
    }
    let apply_fallback_kern = !(apply_gpos || apply_kerx || apply_kern);
    let zero_marks = f.script_zero_marks && !apply_kerx && (!apply_kern || !f.has_machine_kerning);
    let mut adjust_mark_positioning_when_zeroing = !apply_gpos && !apply_kerx && (!apply_kern
        || !f.has_cross_kerning);
    let fallback_mark_positioning = adjust_mark_positioning_when_zeroing
        && f.script_fallback_mark_positioning;
    // With morx, marks are not adjusted when zeroed (emoji sequences rely
    // on it).
    if f.apply_morx {
        adjust_mark_positioning_when_zeroing = false;
    }
    let apply_trak = f.requested_tracking && f.has_trak;
    PlanDecisions {
        apply_gpos,
        apply_kerx,
        apply_kern,
        apply_fallback_kern,
        zero_marks,
        adjust_mark_positioning_when_zeroing,
        fallback_mark_positioning,
        apply_trak,
    }
}

/// Whether the plan has fractions: a `frac` mask, or both a numerator and
/// a denominator mask.
pub fn has_frac(frac_mask: u32, numr_mask: u32, dnom_mask: u32) -> (r: bool)
    ensures
        r == (frac_mask != 0 || (numr_mask != 0 && dnom_mask != 0)),
{
    frac_mask != 0 || (numr_mask != 0 && dnom_mask != 0)
}

/// Who kerns, by the plan's rules:
/// - without `kerx`, when GPOS has no kerning feature and the font has a
///   `kern` table, the `kern` table kerns, whether or not GPOS positions;
/// - GPOS positions whenever the font's usable GPOS is there and either
///   GSUB is there too or there is no `kerx`;
/// - the `kern` table never kerns beside `kerx`, nor beside a GPOS that
///   positions with its own kerning;
/// - fallback kerning is used exactly when no table kerns or positions;
/// - marks are never zeroed when the shaper does not ask for it.
pub proof fn lemma_kerning_choice(f: PlanFacts)
    ensures
        !f.has_kerx && !f.has_gpos_kern && f.has_kerning ==> plan_decisions(f).apply_kern,
        !f.disable_gpos && f.has_gpos_table && (f.has_gsub || !f.has_kerx) ==> plan_decisions(f).apply_gpos,
        f.disable_gpos || !f.has_gpos_table ==> !plan_decisions(f).apply_gpos,
        f.has_kerx ==> !plan_decisions(f).apply_kern,
        !f.has_kerning ==> !plan_decisions(f).apply_kern,
        plan_decisions(f).apply_gpos && f.has_gpos_kern ==> !plan_decisions(f).apply_kern,
        !f.has_kerx ==> !plan_decisions(f).apply_kerx,
        f.has_kerx && !(f.has_gsub && !f.disable_gpos && f.has_gpos_table) ==> plan_decisions(f).apply_kerx,
        plan_decisions(f).apply_fallback_kern <==> !(plan_decisions(f).apply_gpos || plan_decisions(f).apply_kerx
            || plan_decisions(f).apply_kern),
        !f.script_zero_marks ==> !plan_decisions(f).zero_marks,
        plan_decisions(f).apply_trak <==> f.requested_tracking && f.has_trak,
{
}

} // verus!
