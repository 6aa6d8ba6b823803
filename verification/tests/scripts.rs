use rustybuzz::arabic::{
    arabic_joining, feature_is_syriac, get_joining_type, is_stch_action, is_word_category,
    reorder_marks_arabic, ACTION_FINA, ACTION_INIT, ACTION_ISOL, ACTION_MEDI,
};
use rustybuzz::arabic_table::{joining_type, JoiningType};
use rustybuzz::buffer::hb_buffer_t;
use rustybuzz::common::Tag;
use rustybuzz::hebrew::{compose, compose_with};
use rustybuzz::normalize::compare_combining_class;
use rustybuzz::glyph::hb_glyph_info_t;
use rustybuzz::unicode::GeneralCategory;

fn letters(cps: &[u32]) -> hb_buffer_t {
    let mut b = hb_buffer_t::new();
    for (i, cp) in cps.iter().enumerate() {
        b.add(*cp, i as u32);
        b.info[i].set_general_category(GeneralCategory::OtherLetter);
    }
    b
}

fn actions(b: &hb_buffer_t) -> Vec<u8> {
    (0..b.len).map(|i| b.info[i].shaper_byte()).collect()
}

const NO_CONTEXT: [[GeneralCategory; 5]; 2] = [[GeneralCategory::OtherLetter; 5]; 2];

#[test]
fn joining_types_from_the_table() {
    assert_eq!(joining_type('\u{0628}'), JoiningType::D);
    assert_eq!(joining_type('\u{0627}'), JoiningType::R);
    assert_eq!(joining_type('a'), JoiningType::X);
}

#[test]
fn joining_type_falls_back_on_the_category() {
    assert_eq!(get_joining_type(0x0628, GeneralCategory::OtherLetter), JoiningType::D);
    assert_eq!(get_joining_type(0x0300, GeneralCategory::NonspacingMark), JoiningType::T);
    assert_eq!(get_joining_type(0x200B, GeneralCategory::Format), JoiningType::T);
    assert_eq!(get_joining_type(0x0061, GeneralCategory::LowercaseLetter), JoiningType::U);
}

#[test]
fn three_dual_joining_letters() {
    let mut b = letters(&[0x0628, 0x0628, 0x0628]);
    arabic_joining(&mut b, &NO_CONTEXT);
    assert_eq!(actions(&b), vec![ACTION_INIT, ACTION_MEDI, ACTION_FINA]);
}

#[test]
fn a_lone_letter_is_isolated() {
    let mut b = letters(&[0x0628]);
    arabic_joining(&mut b, &NO_CONTEXT);
    assert_eq!(actions(&b), vec![ACTION_ISOL]);
}

#[test]
fn alef_does_not_join_to_the_left() {
    let mut b = letters(&[0x0627, 0x0628]);
    arabic_joining(&mut b, &NO_CONTEXT);
    assert_eq!(actions(&b), vec![ACTION_ISOL, ACTION_ISOL]);
    let mut b = letters(&[0x0628, 0x0627]);
    arabic_joining(&mut b, &NO_CONTEXT);
    assert_eq!(actions(&b), vec![ACTION_INIT, ACTION_FINA]);
}

#[test]
fn word_categories_and_stretching_actions() {
    assert!(is_word_category(GeneralCategory::OtherLetter));
    assert!(is_word_category(GeneralCategory::NonspacingMark));
    assert!(!is_word_category(GeneralCategory::SpaceSeparator));
    assert!(is_stch_action(8));
    assert!(is_stch_action(9));
    assert!(!is_stch_action(ACTION_FINA));
}

#[test]
fn syriac_feature_tags() {
    assert!(feature_is_syriac(Tag::from_bytes(b"fin2")));
    assert!(feature_is_syriac(Tag::from_bytes(b"med2")));
    assert!(!feature_is_syriac(Tag::from_bytes(b"fina")));
}

fn mark(cp: u32, cluster: u32, mcc: u8) -> hb_glyph_info_t {
    let mut g = hb_glyph_info_t::new(cp, cluster);
    g.set_general_category(GeneralCategory::NonspacingMark);
    g.set_modified_combining_class(mcc);
    g
}

#[test]
fn hamza_above_moves_to_the_front_of_the_marks() {
    let mut b = hb_buffer_t::new();
    b.add(0x064E, 0);
    b.add(0x0654, 1);
    b.info[0] = mark(0x064E, 0, 30);
    b.info[1] = mark(0x0654, 1, 230);
    reorder_marks_arabic(0, 2, &mut b);
    assert_eq!(b.info[0].glyph_id, 0x0654);
    assert_eq!(b.info[1].glyph_id, 0x064E);
    assert_eq!(b.info[0].modified_combining_class(), 26);
    assert_eq!(b.info[1].modified_combining_class(), 30);
    assert_eq!(b.info[0].cluster, 0);
    assert_eq!(b.info[1].cluster, 0);
}

#[test]
fn marks_without_modifiers_stay() {
    let mut b = hb_buffer_t::new();
    b.add(0x064E, 0);
    b.add(0x0650, 1);
    b.info[0] = mark(0x064E, 0, 30);
    b.info[1] = mark(0x0650, 1, 220);
    reorder_marks_arabic(0, 2, &mut b);
    assert_eq!(b.info[0].glyph_id, 0x064E);
    assert_eq!(b.info[1].glyph_id, 0x0650);
    assert_eq!(b.info[1].cluster, 1);
}

#[test]
fn hebrew_presentation_forms() {
    assert_eq!(compose(false, 0x05D0, 0x05B7), Some(0xFB2E));
    assert_eq!(compose(true, 0x05D0, 0x05B7), None);
    assert_eq!(compose(false, 0x05E9, 0x05C1), Some(0xFB2A));
    assert_eq!(compose(false, 0x05D1, 0x05BC), Some(0xFB31));
    assert_eq!(compose(false, 0x05D8, 0x05BC), Some(0xFB38));
}

#[test]
fn hebrew_canonical_composition_comes_first() {
    assert_eq!(compose(false, 0x41, 0x301), Some(0xC1));
    assert_eq!(compose(true, 0x41, 0x301), Some(0xC1));
    assert_eq!(compose(false, 0x41, 0x42), None);
    assert_eq!(compose_with(false, 0x05D0, 0x05B7, Some(0x1234)), Some(0x1234));
}

#[test]
fn combining_classes_compare() {
    let a = mark(0x0654, 0, 230);
    let b = mark(0x064E, 1, 30);
    assert!(compare_combining_class(&a, &b));
    assert!(!compare_combining_class(&b, &a));
    assert!(!compare_combining_class(&a, &a));
}

#[test]
fn sort_by_combining_class_orders_marks_and_merges_clusters() {
    let mut b = hb_buffer_t::new();
    b.add(0x61, 0);
    b.add(0x0301, 1);
    b.add(0x0327, 2);
    b.add(0x0316, 3);
    b.info[1] = mark(0x0301, 1, 230);
    b.info[2] = mark(0x0327, 2, 202);
    b.info[3] = mark(0x0316, 3, 220);
    b.sort(1, 4, compare_combining_class);
    let order: Vec<u32> = (0..b.len).map(|i| b.info[i].glyph_id).collect();
    assert_eq!(order, vec![0x61, 0x0327, 0x0316, 0x0301]);
    let classes: Vec<u8> = (1..b.len).map(|i| b.info[i].modified_combining_class()).collect();
    assert_eq!(classes, vec![202, 220, 230]);
    let clusters: Vec<u32> = (0..b.len).map(|i| b.info[i].cluster).collect();
    assert_eq!(clusters, vec![0, 1, 1, 1]);
}

#[test]
fn sort_leaves_ordered_marks_alone() {
    let mut b = hb_buffer_t::new();
    b.add(0x0327, 0);
    b.add(0x0301, 1);
    b.info[0] = mark(0x0327, 0, 202);
    b.info[1] = mark(0x0301, 1, 230);
    b.sort(0, 2, compare_combining_class);
    assert_eq!(b.info[0].glyph_id, 0x0327);
    assert_eq!(b.info[1].glyph_id, 0x0301);
    assert_eq!(b.info[1].cluster, 1);
}

#[test]
fn khmer_split_vowels_decompose() {
    assert_eq!(rustybuzz::khmer::decompose(0x17BE, None), Some((0x17C1, 0x17BE)));
    assert_eq!(rustybuzz::khmer::decompose(0x17C5, Some((1, 2))), Some((0x17C1, 0x17C5)));
    assert_eq!(rustybuzz::khmer::decompose(0x00C1, Some((0x41, 0x301))), Some((0x41, 0x301)));
    assert_eq!(rustybuzz::khmer::decompose(0x17C1, None), None);
}

#[test]
fn khmer_compose_skips_marks() {
    assert_eq!(rustybuzz::khmer::compose(0x41, GeneralCategory::UppercaseLetter, 0x301), Some(0xC1));
    assert_eq!(rustybuzz::khmer::compose(0x17C1, GeneralCategory::SpacingMark, 0x17B8), None);
    assert_eq!(rustybuzz::khmer::compose(0x41, GeneralCategory::UppercaseLetter, 0x42), None);
}
