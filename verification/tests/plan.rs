use rustybuzz::myanmar::myanmar_properties;
use rustybuzz::ot_shape::{decide_positioning, has_frac, PlanDecisions, PlanFacts};

fn facts() -> PlanFacts {
    PlanFacts {
        has_kerx: false,
        has_gsub: false,
        has_gpos_table: false,
        disable_gpos: false,
        has_gpos_kern: false,
        has_kerning: false,
        has_machine_kerning: false,
        has_cross_kerning: false,
        script_zero_marks: true,
        script_fallback_mark_positioning: true,
        apply_morx: false,
        requested_tracking: true,
        has_trak: false,
    }
}

#[test]
fn gpos_positions_when_the_font_has_it() {
    let d = decide_positioning(&PlanFacts { has_gsub: true, has_gpos_table: true, has_gpos_kern: true, ..facts() });
    assert_eq!(
        d,
        PlanDecisions {
            apply_gpos: true,
            apply_kerx: false,
            apply_kern: false,
            apply_fallback_kern: false,
            zero_marks: true,
            adjust_mark_positioning_when_zeroing: false,
            fallback_mark_positioning: false,
            apply_trak: false,
        }
    );
}

#[test]
fn kerx_wins_without_gsub() {
    let d = decide_positioning(&PlanFacts { has_kerx: true, has_gpos_table: true, ..facts() });
    assert!(d.apply_kerx && !d.apply_gpos && !d.apply_kern && !d.zero_marks);
}

#[test]
fn kerx_joins_gpos_without_gpos_kerning() {
    let d = decide_positioning(&PlanFacts { has_kerx: true, has_gsub: true, has_gpos_table: true, ..facts() });
    assert!(d.apply_kerx && d.apply_gpos);
}

#[test]
fn kern_table_and_fallbacks() {
    let d = decide_positioning(&PlanFacts { has_kerning: true, has_cross_kerning: true, has_trak: true, ..facts() });
    assert!(d.apply_kern && !d.apply_fallback_kern && d.zero_marks && d.apply_trak);
    assert!(!d.adjust_mark_positioning_when_zeroing && !d.fallback_mark_positioning);

    let d = decide_positioning(&facts());
    assert!(d.apply_fallback_kern && d.adjust_mark_positioning_when_zeroing && d.fallback_mark_positioning);

    let d = decide_positioning(&PlanFacts { apply_morx: true, ..facts() });
    assert!(!d.adjust_mark_positioning_when_zeroing && d.fallback_mark_positioning);

    let d = decide_positioning(&PlanFacts { disable_gpos: true, has_gpos_table: true, ..facts() });
    assert!(!d.apply_gpos && d.apply_fallback_kern);
}

#[test]
fn fractions_need_frac_or_both_halves() {
    assert!(has_frac(1, 0, 0));
    assert!(has_frac(0, 2, 4));
    assert!(!has_frac(0, 2, 0));
}

#[test]
fn myanmar_properties_follow_the_myanmar_rules() {
    // Medial Ra, Asat, virama, a digit, a variation selector.
    assert_eq!(myanmar_properties(0x103C, 0, 0), (22, 0));
    assert_eq!(myanmar_properties(0x103A, 8, 5), (18, 5));
    assert_eq!(myanmar_properties(0x1039, 0, 5), (4, 5));
    assert_eq!(myanmar_properties(0x1045, 0, 0), (10, 0));
    assert_eq!(myanmar_properties(0xFE01, 0, 0), (30, 0));
    // A matra takes the vowel category of its position.
    assert_eq!(myanmar_properties(0x1031, 7, 3), (22, 2));
    assert_eq!(myanmar_properties(0x102F, 7, 8), (21, 8));
    assert_eq!(myanmar_properties(0x102D, 7, 6), (20, 6));
    assert_eq!(myanmar_properties(0x102B, 7, 11), (23, 11));
    // Others keep what the Indic tables say.
    assert_eq!(myanmar_properties(0x1000, 1, 4), (1, 4));
}
