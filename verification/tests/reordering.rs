use rustybuzz::buffer::hb_buffer_t;
use rustybuzz::khmer::{reorder_consonant_syllable, reorder_syllable as khmer_reorder_syllable, KhmerShapePlan};
use rustybuzz::universal::{reorder_syllable, setup_rphf_mask, setup_topographical_masks};

fn buffer_with(cats: &[u8], syllable: u8) -> hb_buffer_t {
    let mut b = hb_buffer_t::new();
    for (i, c) in cats.iter().enumerate() {
        b.add(0x1780 + i as u32, i as u32);
        b.info[i].set_shaper_byte(*c);
        b.info[i].set_syllable(syllable);
    }
    b
}

fn glyphs(b: &hb_buffer_t) -> Vec<u32> {
    (0..b.len).map(|i| b.info[i].glyph_id).collect()
}

fn clusters(b: &hb_buffer_t) -> Vec<u32> {
    (0..b.len).map(|i| b.info[i].cluster).collect()
}

fn masks(b: &hb_buffer_t) -> Vec<u32> {
    (0..b.len).map(|i| b.info[i].mask).collect()
}

fn khmer_plan() -> KhmerShapePlan {
    KhmerShapePlan { mask_array: [0x10, 0x20, 0x40, 0x80, 0x100, 0, 0, 0, 0] }
}

#[test]
fn khmer_coeng_ro_moves_to_the_start() {
    // Consonant, Coeng, Ro, consonant.
    let mut b = buffer_with(&[1, 4, 15, 1], 0x10);
    let m0 = masks(&b);
    reorder_consonant_syllable(&khmer_plan(), 0, 4, &mut b);
    assert_eq!(glyphs(&b), vec![0x1781, 0x1782, 0x1780, 0x1783]);
    assert_eq!(clusters(&b), vec![0, 0, 0, 3]);
    // Records whose cluster changes lose their glyph flags (the low bits).
    assert_eq!(masks(&b), vec![(m0[1] | 0xE0 | 0x10) & !3, (m0[2] | 0xE0 | 0x10) & !3, m0[0], m0[3] | 0xE0 | 0x100]);
}

#[test]
fn khmer_pre_base_vowel_moves_to_the_start() {
    let mut b = buffer_with(&[1, 22], 0x10);
    let m0 = masks(&b);
    reorder_consonant_syllable(&khmer_plan(), 0, 2, &mut b);
    assert_eq!(glyphs(&b), vec![0x1781, 0x1780]);
    assert_eq!(clusters(&b), vec![0, 0]);
    assert_eq!(masks(&b), vec![(m0[1] | 0xE0) & !3, m0[0]]);
}

#[test]
fn khmer_coeng_without_ro_stays() {
    let mut b = buffer_with(&[1, 4, 1], 0x10);
    let m0 = masks(&b);
    reorder_consonant_syllable(&khmer_plan(), 0, 3, &mut b);
    assert_eq!(glyphs(&b), vec![0x1780, 0x1781, 0x1782]);
    assert_eq!(clusters(&b), vec![0, 1, 2]);
    assert_eq!(masks(&b), vec![m0[0], m0[1] | 0xE0, m0[2] | 0xE0]);
}

#[test]
fn khmer_non_khmer_cluster_is_left_alone() {
    let mut b = buffer_with(&[1, 22], 0x12);
    let m0 = masks(&b);
    khmer_reorder_syllable(&khmer_plan(), 0, 2, &mut b);
    assert_eq!(glyphs(&b), vec![0x1780, 0x1781]);
    assert_eq!(masks(&b), m0);
}

#[test]
fn khmer_broken_cluster_is_reordered() {
    let mut b = buffer_with(&[1, 22], 0x11);
    khmer_reorder_syllable(&khmer_plan(), 0, 2, &mut b);
    assert_eq!(glyphs(&b), vec![0x1781, 0x1780]);
}

#[test]
fn use_repha_moves_before_the_post_base_vowel() {
    // Repha, base, post-base vowel; a standard cluster.
    let mut b = buffer_with(&[18, 1, 35], 0x13);
    reorder_syllable(0, 3, &mut b);
    assert_eq!(glyphs(&b), vec![0x1781, 0x1780, 0x1782]);
    assert_eq!(clusters(&b), vec![0, 0, 2]);
}

#[test]
fn use_repha_moves_to_the_end_without_post_base() {
    let mut b = buffer_with(&[18, 1, 1], 0x13);
    reorder_syllable(0, 3, &mut b);
    assert_eq!(glyphs(&b), vec![0x1781, 0x1782, 0x1780]);
    assert_eq!(clusters(&b), vec![0, 0, 0]);
}

#[test]
fn use_pre_base_vowel_moves_after_the_last_halant() {
    // Base, halant, base, pre-base vowel.
    let mut b = buffer_with(&[1, 12, 1, 22], 0x13);
    reorder_syllable(0, 4, &mut b);
    assert_eq!(glyphs(&b), vec![0x1780, 0x1781, 0x1783, 0x1782]);
    assert_eq!(clusters(&b), vec![0, 1, 2, 2]);
}

#[test]
fn use_independent_cluster_is_not_reordered() {
    let mut b = buffer_with(&[1, 22], 0x10);
    reorder_syllable(0, 2, &mut b);
    assert_eq!(glyphs(&b), vec![0x1780, 0x1781]);
}

#[test]
fn use_topographical_forms() {
    // Three joining syllables of one record each, then a non-joining one.
    let mut b = buffer_with(&[1, 1, 1, 1], 0);
    b.info[0].set_syllable(0x13);
    b.info[1].set_syllable(0x23);
    b.info[2].set_syllable(0x33);
    b.info[3].set_syllable(0x40);
    let m0 = masks(&b);
    setup_topographical_masks([1, 2, 4, 8], &mut b);
    assert_eq!(masks(&b), vec![(m0[0] & !15) | 2, (m0[1] & !15) | 4, (m0[2] & !15) | 8, m0[3]]);
}

#[test]
fn use_rphf_mask_on_the_first_records() {
    // A syllable of four records, then one that starts with a repha.
    let mut b = buffer_with(&[1, 1, 1, 1, 18, 1], 0x13);
    b.info[4].set_syllable(0x23);
    b.info[5].set_syllable(0x23);
    let m0 = masks(&b);
    setup_rphf_mask(0x80, &mut b);
    assert_eq!(masks(&b), vec![m0[0] | 0x80, m0[1] | 0x80, m0[2] | 0x80, m0[3], m0[4] | 0x80, m0[5]]);
}

#[test]
fn use_reorder_walks_every_syllable() {
    let mut b = buffer_with(&[18, 1, 35, 1, 22], 0x13);
    b.info[3].set_syllable(0x23);
    b.info[4].set_syllable(0x23);
    rustybuzz::universal::reorder(Some(0x25CC), 1, &mut b);
    assert_eq!(glyphs(&b), vec![0x1781, 0x1780, 0x1782, 0x1784, 0x1783]);
    assert_eq!(clusters(&b), vec![0, 0, 2, 3, 3]);
}

#[test]
fn use_reorder_puts_a_dotted_circle_into_broken_syllables() {
    let mut b = buffer_with(&[1], 0x18);
    rustybuzz::universal::reorder(Some(0x25CC), 1, &mut b);
    assert_eq!(glyphs(&b), vec![0x25CC, 0x1780]);
    assert_eq!(clusters(&b), vec![0, 0]);

    let mut b = buffer_with(&[1], 0x18);
    rustybuzz::universal::reorder(None, 1, &mut b);
    assert_eq!(glyphs(&b), vec![0x1780]);
}
