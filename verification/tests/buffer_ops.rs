use rustybuzz::buffer::{_cluster_group_func, hb_buffer_t, BufferClusterLevel};
use rustybuzz::buffer_moves::{add_masks, merge_range, move_block_records, rotate_left_records, rotate_right_records};
use rustybuzz::glyph::hb_glyph_info_t;

fn buffer_with_clusters(clusters: &[u32]) -> hb_buffer_t {
    let mut b = hb_buffer_t::new();
    for (i, c) in clusters.iter().enumerate() {
        b.add(0x61 + i as u32, *c);
    }
    b
}

fn glyphs(b: &hb_buffer_t) -> Vec<u32> {
    (0..b.len).map(|i| b.info[i].glyph_id).collect()
}

fn clusters(b: &hb_buffer_t) -> Vec<u32> {
    (0..b.len).map(|i| b.info[i].cluster).collect()
}

#[test]
fn cluster_level_raw_roundtrip() {
    for raw in 0..3u32 {
        assert_eq!(BufferClusterLevel::from_raw(raw).into_raw(), raw);
    }
    assert_eq!(BufferClusterLevel::from_raw(1), BufferClusterLevel::MonotoneCharacters);
    assert_eq!(BufferClusterLevel::Characters.into_raw(), 2);
    assert_eq!(BufferClusterLevel::default(), BufferClusterLevel::MonotoneGraphemes);
}

#[test]
fn cluster_group_compares_clusters() {
    let a = hb_glyph_info_t::new(1, 7);
    let b = hb_glyph_info_t::new(2, 7);
    let c = hb_glyph_info_t::new(1, 8);
    assert!(_cluster_group_func(&a, &b));
    assert!(!_cluster_group_func(&a, &c));
}

#[test]
fn group_end_stops_where_the_cluster_changes() {
    let b = buffer_with_clusters(&[0, 0, 1, 1, 1, 2]);
    assert_eq!(b.group_end(0, _cluster_group_func), 2);
    assert_eq!(b.group_end(2, _cluster_group_func), 5);
    assert_eq!(b.group_end(5, _cluster_group_func), 6);
    assert_eq!(b.group_end(3, |_, _| true), 6);
}

#[test]
fn merge_clusters_takes_the_smallest_cluster() {
    let mut b = buffer_with_clusters(&[3, 1, 2, 5]);
    b.merge_clusters(0, 3);
    assert_eq!(clusters(&b), vec![1, 1, 1, 5]);
}

#[test]
fn merge_clusters_extends_over_equal_neighbours() {
    let mut b = buffer_with_clusters(&[0, 1, 1, 2]);
    b.merge_clusters(0, 2);
    assert_eq!(clusters(&b), vec![0, 0, 0, 2]);
}

#[test]
fn merge_of_one_record_changes_nothing() {
    let mut b = buffer_with_clusters(&[4, 3]);
    merge_range(&mut b, 1, 2);
    assert_eq!(clusters(&b), vec![4, 3]);
}

#[test]
fn rotations_move_one_record() {
    let mut b = buffer_with_clusters(&[0, 1, 2, 3]);
    rotate_right_records(&mut b, 0, 2);
    assert_eq!(glyphs(&b), vec![0x63, 0x61, 0x62, 0x64]);
    rotate_left_records(&mut b, 0, 2);
    assert_eq!(glyphs(&b), vec![0x61, 0x62, 0x63, 0x64]);
}

#[test]
fn block_move_shifts_the_records_between() {
    let mut b = buffer_with_clusters(&[0, 1, 2, 3, 4]);
    move_block_records(&mut b, 0, 2, 4);
    assert_eq!(glyphs(&b), vec![0x63, 0x64, 0x61, 0x62, 0x65]);
}

#[test]
fn add_masks_touches_only_the_range() {
    let mut b = buffer_with_clusters(&[0, 1, 2]);
    let before: Vec<u32> = (0..3).map(|i| b.info[i].mask).collect();
    add_masks(&mut b, 1, 2, 0x100);
    assert_eq!(b.info[0].mask, before[0]);
    assert_eq!(b.info[1].mask, before[1] | 0x100);
    assert_eq!(b.info[2].mask, before[2]);
}

#[test]
fn next_syllable_finds_the_end_of_a_syllable() {
    let mut b = buffer_with_clusters(&[0, 1, 2, 3]);
    b.info[0].set_syllable(0x10);
    b.info[1].set_syllable(0x10);
    b.info[2].set_syllable(0x21);
    b.info[3].set_syllable(0x21);
    assert_eq!(b.next_syllable(0), 2);
    assert_eq!(b.next_syllable(2), 4);
    assert_eq!(b.next_syllable(4), 4);
}

#[test]
fn reverse_groups_steps_through_the_records() {
    let mut b = buffer_with_clusters(&[0, 0, 1]);
    b.reverse_groups(_cluster_group_func, false);
    assert_eq!(glyphs(&b), vec![0x61, 0x63, 0x62]);
    assert_eq!(clusters(&b), vec![0, 1, 0]);

    let mut b = buffer_with_clusters(&[0, 1, 1, 2]);
    b.reverse_groups(_cluster_group_func, false);
    assert_eq!(glyphs(&b), vec![0x64, 0x62, 0x63, 0x61]);
    assert_eq!(clusters(&b), vec![2, 1, 1, 0]);

    let mut b = buffer_with_clusters(&[0, 1]);
    b.reverse_groups(_cluster_group_func, true);
    assert_eq!(glyphs(&b), vec![0x62, 0x61]);

    let mut b = hb_buffer_t::new();
    b.reverse_groups(_cluster_group_func, true);
    assert_eq!(b.len, 0);
}
