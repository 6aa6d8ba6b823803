use rustybuzz::buffer::hb_buffer_t;
use rustybuzz::glyph::SCRATCH_HAS_BROKEN_SYLLABLE;
use rustybuzz::khmer_machine::find_syllables_khmer;
use rustybuzz::myanmar_machine::find_syllables_myanmar;
use rustybuzz::indic_machine::find_syllables_indic;
use rustybuzz::universal_machine::find_syllables;

fn buffer_with_categories(cats: &[u8]) -> hb_buffer_t {
    let mut b = hb_buffer_t::new();
    for (i, c) in cats.iter().enumerate() {
        b.add(0x41 + i as u32, i as u32);
        b.info[i].set_shaper_byte(*c);
    }
    b
}

fn syllables(b: &hb_buffer_t) -> Vec<u8> {
    (0..b.len).map(|i| b.info[i].syllable()).collect()
}

#[test]
fn khmer_syllables_1() {
    let mut b = buffer_with_categories(&[23, 22, 13, 7, 26, 20, 23, 24]);
    find_syllables_khmer(&mut b);
    assert_eq!(syllables(&b), vec![17, 33, 50, 66, 81, 81, 81, 98]);
}

#[test]
fn khmer_syllables_2() {
    let mut b = buffer_with_categories(&[25, 6, 26, 9, 25, 19, 12]);
    find_syllables_khmer(&mut b);
    assert_eq!(syllables(&b), vec![17, 17, 17, 34, 49, 66, 82]);
}

#[test]
fn khmer_syllables_3() {
    let mut b = buffer_with_categories(&[11, 27, 27, 24, 11, 16, 24]);
    find_syllables_khmer(&mut b);
    assert_eq!(syllables(&b), vec![16, 16, 16, 34, 48, 66, 82]);
}

#[test]
fn khmer_syllables_4() {
    let mut b = buffer_with_categories(&[5, 26, 23, 26, 8, 24, 10, 23, 16]);
    find_syllables_khmer(&mut b);
    assert_eq!(syllables(&b), vec![17, 17, 17, 17, 34, 50, 64, 64, 82]);
}

#[test]
fn myanmar_syllables_5() {
    let mut b = buffer_with_categories(&[29, 18, 8, 21, 9, 4]);
    find_syllables_myanmar(&mut b);
    assert_eq!(syllables(&b), vec![18, 18, 18, 34, 51, 66]);
}

#[test]
fn myanmar_syllables_6() {
    let mut b = buffer_with_categories(&[10, 17, 27, 22, 27, 29, 17, 29, 8, 28]);
    find_syllables_myanmar(&mut b);
    assert_eq!(syllables(&b), vec![18, 35, 50, 66, 66, 66, 83, 98, 98, 114]);
}

#[test]
fn myanmar_syllables_7() {
    let mut b = buffer_with_categories(&[23, 33, 28, 7, 3, 30, 5, 22, 26]);
    find_syllables_myanmar(&mut b);
    assert_eq!(syllables(&b), vec![18, 18, 18, 35, 50, 66, 66, 82, 82]);
}

#[test]
fn myanmar_syllables_8() {
    let mut b = buffer_with_categories(&[33, 28, 32, 28, 8, 24, 28]);
    find_syllables_myanmar(&mut b);
    assert_eq!(syllables(&b), vec![18, 18, 32, 32, 32, 50, 50]);
}

#[test]
fn indic_syllables_9() {
    let mut b = buffer_with_categories(&[2, 3, 9, 6, 11, 15, 15, 18]);
    find_syllables_indic(&mut b);
    assert_eq!(syllables(&b), vec![17, 17, 17, 37, 50, 64, 80, 101]);
}

#[test]
fn indic_syllables_10() {
    let mut b = buffer_with_categories(&[7, 2, 3, 3, 19, 2]);
    find_syllables_indic(&mut b);
    assert_eq!(syllables(&b), vec![20, 33, 33, 33, 53, 65]);
}

#[test]
fn indic_syllables_11() {
    let mut b = buffer_with_categories(&[15, 16, 4, 16, 7, 9, 5, 10, 9]);
    find_syllables_indic(&mut b);
    assert_eq!(syllables(&b), vec![16, 16, 16, 36, 36, 36, 53, 66, 66]);
}

#[test]
fn indic_syllables_12() {
    let mut b = buffer_with_categories(&[3, 3, 4, 11]);
    find_syllables_indic(&mut b);
    assert_eq!(syllables(&b), vec![20, 20, 20, 34]);
}

#[test]
fn universal_syllables_13() {
    let mut b = buffer_with_categories(&[1, 48, 16, 28, 45, 37, 38, 48, 42]);
    find_syllables(&mut b);
    assert_eq!(syllables(&b), vec![17, 17, 41, 56, 56, 72, 72, 72, 88]);
}

#[test]
fn universal_syllables_14() {
    let mut b = buffer_with_categories(&[16, 32, 11, 35, 39, 48, 1, 11, 21, 30]);
    find_syllables(&mut b);
    assert_eq!(syllables(&b), vec![25, 40, 40, 40, 40, 40, 40, 56, 73, 88]);
}

#[test]
fn universal_syllables_15() {
    let mut b = buffer_with_categories(&[22, 33, 18, 33, 23, 14, 42, 32, 51]);
    find_syllables(&mut b);
    assert_eq!(syllables(&b), vec![24, 24, 40, 40, 40, 57, 72, 88, 103]);
}

#[test]
fn universal_syllables_16() {
    let mut b = buffer_with_categories(&[41, 44, 45, 45, 39]);
    find_syllables(&mut b);
    assert_eq!(syllables(&b), vec![24, 40, 40, 40, 56]);
}

#[test]
fn khmer_serial_wraps_after_fifteen() {
    let mut b = buffer_with_categories(&[0u8; 17]);
    find_syllables_khmer(&mut b);
    assert_eq!(
        syllables(&b),
        vec![18, 34, 50, 66, 82, 98, 114, 130, 146, 162, 178, 194, 210, 226, 242, 18, 34]
    );
}

#[test]
fn khmer_broken_cluster_sets_scratch_flag() {
    // A lone dependent vowel is a broken cluster.
    let mut b = buffer_with_categories(&[23]);
    find_syllables_khmer(&mut b);
    assert_eq!(syllables(&b)[0] & 0x0F, 1);
    assert_ne!(b.scratch_flags & SCRATCH_HAS_BROKEN_SYLLABLE, 0);
}

#[test]
fn syllables_of_empty_buffer() {
    let mut b = hb_buffer_t::new();
    find_syllables_khmer(&mut b);
    find_syllables_myanmar(&mut b);
    find_syllables_indic(&mut b);
    find_syllables(&mut b);
    assert_eq!(b.len, 0);
    assert_eq!(b.scratch_flags, 0);
}

#[test]
fn syllable_finding_keeps_other_fields() {
    let mut b = buffer_with_categories(&[1, 4, 1, 23]);
    let before: Vec<(u32, u32, u32, u32)> =
        (0..4).map(|i| (b.info[i].glyph_id, b.info[i].cluster, b.info[i].mask, b.info[i].var2)).collect();
    find_syllables_indic(&mut b);
    let after: Vec<(u32, u32, u32, u32)> =
        (0..4).map(|i| (b.info[i].glyph_id, b.info[i].cluster, b.info[i].mask, b.info[i].var2)).collect();
    assert_eq!(before, after);
}

fn grammar_syllables(cats: &[u8]) -> Vec<u8> {
    let mut b = buffer_with_categories(cats);
    rustybuzz::complex::indic_machine::find_syllables_indic(&mut b);
    syllables(&b)
}

#[test]
fn indic_grammar_consonant_with_halant_and_matra() {
    // C H C M: one consonant syllable, the first of the run (serial 0).
    assert_eq!(grammar_syllables(&[1, 4, 1, 7]), vec![0x00, 0x00, 0x00, 0x00]);
}

#[test]
fn indic_grammar_each_kind() {
    // V N | DOTTEDCIRCLE | Symbol A | N | X
    assert_eq!(
        grammar_syllables(&[2, 3, 11, 17, 9, 3, 0]),
        vec![0x01, 0x01, 0x12, 0x23, 0x23, 0x34, 0x45]
    );
}

#[test]
fn indic_grammar_serials_wrap_after_fifteen() {
    let cats = [1u8; 17];
    let got = grammar_syllables(&cats);
    let mut want = vec![0u8];
    for s in 1..=15u8 {
        want.push(s << 4);
    }
    want.push(0x10);
    assert_eq!(got, want);
}

#[test]
fn indic_grammar_reph_and_vowel() {
    // Ra H V ZWJ: a vowel syllable with a reph, closed by a joiner; then C.
    assert_eq!(grammar_syllables(&[15, 4, 2, 6, 1]), vec![0x01, 0x01, 0x01, 0x01, 0x10]);
}

fn masks(b: &hb_buffer_t) -> Vec<u32> {
    (0..b.len).map(|i| b.info[i].mask).collect()
}

fn with_flags(before: &[u32], flagged: &[usize], extra: u32) -> Vec<u32> {
    before
        .iter()
        .enumerate()
        .map(|(i, m)| if flagged.contains(&i) { m | extra } else { *m })
        .collect()
}

#[test]
fn khmer_setup_marks_syllables_unsafe_to_break() {
    let mut b = buffer_with_categories(&[23, 22, 13, 7, 26, 20, 23, 24]);
    let before = masks(&b);
    rustybuzz::khmer::setup_syllables(&mut b);
    assert_eq!(syllables(&b), vec![17, 33, 50, 66, 81, 81, 81, 98]);
    assert_eq!(masks(&b), with_flags(&before, &[5, 6], 3));
    assert_ne!(b.scratch_flags & 0x20, 0);
}

#[test]
fn myanmar_setup_marks_syllables_unsafe_to_break() {
    let mut b = buffer_with_categories(&[10, 17, 27, 22, 27, 29, 17, 29, 8, 28]);
    let before = masks(&b);
    rustybuzz::myanmar_machine::setup_syllables(&mut b);
    assert_eq!(syllables(&b), vec![18, 35, 50, 66, 66, 66, 83, 98, 98, 114]);
    assert_eq!(masks(&b), with_flags(&before, &[4, 5, 8], 3));
}

#[test]
fn setup_leaves_single_record_syllables_alone() {
    let mut b = buffer_with_categories(&[1, 1, 1]);
    let before = masks(&b);
    let scratch = b.scratch_flags;
    rustybuzz::khmer::setup_syllables(&mut b);
    assert_eq!(masks(&b), before);
    assert_eq!(b.scratch_flags & 0x20, scratch & 0x20);
}

#[test]
fn universal_setup_adds_flags_and_repha_masks() {
    let mut b = buffer_with_categories(&[16, 32, 11, 35, 39, 48, 1, 11, 21, 30]);
    let before = masks(&b);
    rustybuzz::universal::setup_syllables(0, [0; 4], &mut b);
    assert_eq!(syllables(&b), vec![25, 40, 40, 40, 40, 40, 40, 56, 73, 88]);
    let flagged = with_flags(&before, &[2, 3, 4, 5, 6], 3);
    assert_eq!(masks(&b), flagged);

    let mut b = buffer_with_categories(&[16, 32, 11, 35, 39, 48, 1, 11, 21, 30]);
    rustybuzz::universal::setup_syllables(0x100, [0; 4], &mut b);
    assert_eq!(masks(&b), with_flags(&flagged, &[0, 1, 2, 3, 7, 8, 9], 0x100));
}
