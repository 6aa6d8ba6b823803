use rustybuzz::aat_layout::{remove_deleted_glyphs, zero_width_deleted_glyphs};
use rustybuzz::buffer::{hb_buffer_t, BUFFER_FLAG_DO_NOT_INSERT_DOTTED_CIRCLE, MAX_LEN_DEFAULT, MAX_OPS_DEFAULT};
use rustybuzz::common::{Direction, Feature, Tag};
use rustybuzz::stch::{apply_stch, SCRATCH_HAS_STCH};
use rustybuzz::syllabic::insert_dotted_circles;
use rustybuzz::universal::{record_pref, record_rphf};
use rustybuzz::unicode::GeneralCategory;

fn buffer_of(glyphs: &[u32], clusters: &[u32]) -> hb_buffer_t {
    let mut b = hb_buffer_t::new();
    for (g, c) in glyphs.iter().zip(clusters) {
        b.add(*g, *c);
    }
    b
}

fn glyphs(b: &hb_buffer_t) -> Vec<u32> {
    (0..b.len).map(|i| b.info[i].glyph_id).collect()
}

fn clusters(b: &hb_buffer_t) -> Vec<u32> {
    (0..b.len).map(|i| b.info[i].cluster).collect()
}

#[test]
fn deleted_glyph_between_kept_ones() {
    let mut b = buffer_of(&[1, 0xFFFF, 2], &[0, 1, 2]);
    remove_deleted_glyphs(&mut b);
    assert_eq!(glyphs(&b), vec![1, 2]);
    assert_eq!(clusters(&b), vec![0, 2]);
}

#[test]
fn deleted_first_glyph_merges_forward() {
    let mut b = buffer_of(&[0xFFFF, 1], &[0, 1]);
    remove_deleted_glyphs(&mut b);
    assert_eq!(glyphs(&b), vec![1]);
    assert_eq!(clusters(&b), vec![0]);
}

#[test]
fn deleted_glyph_with_smaller_cluster_merges_backward() {
    let mut b = buffer_of(&[1, 0xFFFF, 2], &[5, 3, 7]);
    remove_deleted_glyphs(&mut b);
    assert_eq!(glyphs(&b), vec![1, 2]);
    assert_eq!(clusters(&b), vec![3, 7]);
}

#[test]
fn delete_in_place_with_any_filter() {
    let mut b = buffer_of(&[1, 2, 3, 4], &[0, 1, 2, 3]);
    b.delete_glyphs_inplace(|g| g.glyph_id % 2 == 0);
    assert_eq!(glyphs(&b), vec![1, 3]);
}

#[test]
fn deleted_glyphs_lose_their_advance() {
    let mut b = buffer_of(&[1, 0xFFFF], &[0, 1]);
    b.pos[0].x_advance = 10;
    b.pos[1].x_advance = 20;
    b.pos[1].y_offset = 5;
    zero_width_deleted_glyphs(&mut b);
    assert_eq!(b.pos[0].x_advance, 10);
    assert_eq!(b.pos[1].x_advance, 0);
    assert_eq!(b.pos[1].y_offset, 0);
}

#[test]
fn merge_out_clusters_in_the_output() {
    let mut b = buffer_of(&[1, 2, 3, 4], &[0, 1, 2, 3]);
    b.clear_output();
    b.next_glyph();
    b.next_glyph();
    b.next_glyph();
    b.merge_out_clusters(0, 2);
    assert_eq!(clusters(&b), vec![0, 0, 2, 3]);
}

#[test]
fn merge_out_clusters_reaches_into_the_input() {
    let mut b = buffer_of(&[1, 2, 3, 4], &[0, 1, 2, 2]);
    b.clear_output();
    b.next_glyph();
    b.next_glyph();
    b.next_glyph();
    b.merge_out_clusters(1, 3);
    assert_eq!(clusters(&b), vec![0, 1, 1, 1]);
}

#[test]
fn push_str_uses_byte_offsets() {
    let mut b = hb_buffer_t::new();
    b.push_str("a\u{e9}z");
    assert_eq!(glyphs(&b), vec![0x61, 0xE9, 0x7A]);
    assert_eq!(clusters(&b), vec![0, 1, 3]);
}

#[test]
fn contexts_keep_five_characters() {
    let mut b = hb_buffer_t::new();
    b.set_pre_context("abcdefg");
    assert_eq!(b.context_len[0], 5);
    assert_eq!(b.context[0], ['g', 'f', 'e', 'd', 'c']);
    b.set_post_context("xy");
    assert_eq!(b.context_len[1], 2);
    assert_eq!(&b.context[1][..2], &['x', 'y']);
    b.clear_context(0);
    assert_eq!(b.context_len[0], 0);
}

#[test]
fn clear_enter_and_leave() {
    let mut b = hb_buffer_t::new();
    b.push_str("ab");
    b.direction = Direction::RightToLeft;
    b.enter();
    assert_eq!(b.max_len, 16384);
    assert_eq!(b.max_ops, 16384);
    b.leave();
    assert_eq!(b.max_len, MAX_LEN_DEFAULT);
    assert_eq!(b.max_ops, MAX_OPS_DEFAULT);
    b.clear();
    assert_eq!(b.len, 0);
    assert_eq!(b.direction, Direction::Invalid);
}

#[test]
fn features_and_directions_from_str() {
    let f: Feature = "kern=0".parse().unwrap();
    assert_eq!(f.tag, Tag::from_bytes(b"kern"));
    assert_eq!(f.value, 0);
    assert_eq!("".parse::<Feature>(), Err("invalid feature"));
    assert_eq!("rtl".parse::<Direction>(), Ok(Direction::RightToLeft));
    assert_eq!("?".parse::<Direction>(), Err("invalid direction"));
}

fn syllable_buffer(syllables: &[u8], cats: &[u8]) -> hb_buffer_t {
    let mut b = hb_buffer_t::new();
    for (i, (s, c)) in syllables.iter().zip(cats).enumerate() {
        b.add(0x1000 + i as u32, i as u32);
        b.info[i].set_syllable(*s);
        b.info[i].set_shaper_byte(*c);
    }
    b
}

#[test]
fn dotted_circle_goes_before_a_broken_syllable() {
    let mut b = syllable_buffer(&[0x11, 0x11, 0x20], &[5, 6, 7]);
    insert_dotted_circles(Some(77), &mut b, 1, 11, None, None);
    assert_eq!(glyphs(&b), vec![77, 0x1000, 0x1001, 0x1002]);
    assert_eq!(b.info[0].cluster, 0);
    assert_eq!(b.info[0].syllable(), 0x11);
    assert_eq!(b.info[0].shaper_byte(), 11);
}

#[test]
fn dotted_circle_goes_after_a_repha() {
    let mut b = syllable_buffer(&[0x11, 0x11, 0x20], &[14, 6, 7]);
    insert_dotted_circles(Some(77), &mut b, 1, 11, Some(14), None);
    assert_eq!(glyphs(&b), vec![0x1000, 77, 0x1001, 0x1002]);
}

#[test]
fn no_dotted_circle_without_glyph_or_when_forbidden() {
    let mut b = syllable_buffer(&[0x11, 0x20], &[5, 7]);
    insert_dotted_circles(None, &mut b, 1, 11, None, None);
    assert_eq!(glyphs(&b), vec![0x1000, 0x1001]);
    b.flags = BUFFER_FLAG_DO_NOT_INSERT_DOTTED_CIRCLE;
    insert_dotted_circles(Some(77), &mut b, 1, 11, None, None);
    assert_eq!(glyphs(&b), vec![0x1000, 0x1001]);
}

#[test]
fn substituted_pre_base_forms_become_pre_base_vowels() {
    let mut b = syllable_buffer(&[0x13, 0x13, 0x13, 0x23], &[1, 1, 1, 1]);
    b.info[1].set_glyph_props(0x10);
    b.info[2].set_glyph_props(0x10);
    b.info[3].set_glyph_props(0x10);
    record_pref(&mut b);
    let cats: Vec<u8> = (0..4).map(|i| b.info[i].shaper_byte()).collect();
    assert_eq!(cats, vec![1, 22, 1, 22]);
}

#[test]
fn substituted_repha_forms_become_rephas() {
    let mut b = syllable_buffer(&[0x13, 0x13, 0x23, 0x23], &[1, 1, 1, 1]);
    b.info[0].mask |= 0x80;
    b.info[0].set_glyph_props(0x10);
    b.info[3].mask |= 0x80;
    b.info[3].set_glyph_props(0x10);
    record_rphf(0x80, &mut b);
    let cats: Vec<u8> = (0..4).map(|i| b.info[i].shaper_byte()).collect();
    // The second syllable's first record lacks the mask, so the search stops.
    assert_eq!(cats, vec![18, 1, 1, 1]);
}

#[test]
fn stretching_repeats_the_repeating_piece() {
    let mut b = hb_buffer_t::new();
    b.add(0x0710, 0);
    b.add(0x0711, 1);
    b.info[0].set_general_category(GeneralCategory::OtherLetter);
    b.info[1].set_general_category(GeneralCategory::NonspacingMark);
    b.info[1].set_shaper_byte(9);
    b.pos[0].x_advance = 100;
    b.scratch_flags |= SCRATCH_HAS_STCH;
    apply_stch(1, &[0, 30], &mut b);
    assert_eq!(glyphs(&b), vec![0x0710, 0x0711, 0x0711, 0x0711, 0x0711]);
    let offsets: Vec<i32> = (0..b.len).map(|i| b.pos[i].x_offset).collect();
    assert_eq!(offsets, vec![0, -102, -78, -54, -30]);
}

#[test]
fn no_stretching_without_the_scratch_flag() {
    let mut b = hb_buffer_t::new();
    b.add(0x0711, 0);
    b.info[0].set_shaper_byte(9);
    apply_stch(1, &[30], &mut b);
    assert_eq!(b.len, 1);
}

fn masks_of(b: &hb_buffer_t) -> Vec<u32> {
    (0..b.len).map(|i| b.info[i].mask).collect()
}

#[test]
fn unsafe_to_break_from_outbuffer_ignores_the_concat_flag() {
    let mut b = buffer_of(&[1, 2, 3, 4], &[0, 1, 2, 3]);
    assert_eq!(b.flags, 0);
    b.clear_output();
    b.next_glyph();
    b.next_glyph();
    b.unsafe_to_break_from_outbuffer(Some(0), Some(4));
    assert_eq!(masks_of(&b), vec![0, 3, 3, 3]);
    assert_ne!(b.scratch_flags & 0x20, 0);
}

#[test]
fn unsafe_to_concat_from_outbuffer_marks_every_record() {
    let mut b = buffer_of(&[1, 2, 3, 4], &[0, 0, 2, 3]);
    b.clear_output();
    b.next_glyph();
    b.next_glyph();
    b.unsafe_to_concat_from_outbuffer(Some(1), Some(3));
    assert_eq!(masks_of(&b), vec![0, 2, 2, 0]);
}

#[test]
fn next_glyph_without_output_keeps_the_records() {
    let mut b = buffer_of(&[1, 2, 3], &[0, 1, 2]);
    b.next_glyph();
    assert_eq!(b.idx, 1);
    assert_eq!(glyphs(&b), vec![1, 2, 3]);
    assert_eq!(b.out_len, 0);
}

#[test]
fn move_to_keeps_the_text() {
    let mut b = buffer_of(&[1, 2, 3, 4], &[0, 1, 2, 3]);
    b.clear_output();
    b.next_glyph();
    b.next_glyph();
    b.next_glyph();
    assert!(b.move_to(1));
    assert_eq!((b.out_len, b.idx), (1, 1));
    assert_eq!(glyphs(&b), vec![1, 2, 3, 4]);
    assert!(b.move_to(3));
    assert_eq!((b.out_len, b.idx), (3, 3));
    assert_eq!(glyphs(&b), vec![1, 2, 3, 4]);
}

#[test]
fn dotted_circles_on_a_failed_buffer_leave_the_input() {
    let mut b = syllable_buffer(&[0x11, 0x11, 0x20], &[5, 6, 7]);
    b.successful = false;
    insert_dotted_circles(Some(77), &mut b, 1, 11, None, None);
    assert_eq!(glyphs(&b), vec![0x1000, 0x1001, 0x1002]);
    assert!(!b.successful);
    assert!(!b.have_output);
    assert_eq!(b.idx, 0);
}
