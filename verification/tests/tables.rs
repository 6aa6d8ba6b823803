use rustybuzz::aat_layout_common::{range_flag_t_wrapper, range_flags_t};
use rustybuzz::aat_map::{
    find_mapping, feature_info_t, feature_mapping, hb_aat_map_builder_t, hb_aat_map_t, FeatureName,
    FeatureNames, MorxTable,
};
use rustybuzz::common::{Direction, Tag};
use rustybuzz::flags::{rb_flag, rb_flag64, rb_flag64_unsafe, rb_flag_range, rb_flag_unsafe};
use rustybuzz::set_digest::hb_set_digest_bits_pattern_t;

#[test]
fn tag_bytes_roundtrip() {
    let t = Tag::from_bytes(b"kern");
    assert_eq!(t.as_u32(), 0x6B65726E);
    assert_eq!(&t.to_bytes(), b"kern");
    assert_eq!(t.to_chars(), ['k', 'e', 'r', 'n']);
    assert!(!t.is_null());
    assert!(Tag::from_bytes_lossy(b"").is_null());
    assert_eq!(Tag::from_bytes_lossy(b"ab").to_bytes(), *b"ab  ");
    assert_eq!(Tag::from_bytes_lossy(b"abcdef").to_bytes(), *b"abcd");
}

#[test]
fn direction_raw_roundtrip() {
    for d in [Direction::LeftToRight, Direction::RightToLeft, Direction::TopToBottom, Direction::BottomToTop] {
        assert_eq!(Direction::from_raw(d.to_raw()), d);
    }
    assert_eq!(Direction::from_raw(1), Direction::Invalid);
    assert_eq!(Direction::from_str_bytes(b"rtl"), Some(Direction::RightToLeft));
    assert_eq!(Direction::from_str_bytes(b"B"), Some(Direction::BottomToTop));
    assert_eq!(Direction::from_str_bytes(b"x"), None);
    assert_eq!(Direction::from_str_bytes(b""), None);
}

#[test]
fn flag_values() {
    assert_eq!(rb_flag(0), 1);
    assert_eq!(rb_flag(31), 0x8000_0000);
    assert_eq!(rb_flag_unsafe(32), 0);
    assert_eq!(rb_flag_unsafe(5), 32);
    assert_eq!(rb_flag64(40), 1u64 << 40);
    assert_eq!(rb_flag64_unsafe(64), 0);
    // One more than the bits from x to y when x < y.
    assert_eq!(rb_flag_range(2, 4), 0b11100 + 1);
    assert_eq!(rb_flag_range(3, 3), 0b1000);
}

#[test]
fn digest_add_and_union() {
    let mut d = hb_set_digest_bits_pattern_t::<4>::new();
    assert_eq!(d.mask, 0);
    d.add(0x35);
    assert_eq!(d.mask, 1 << 3);
    let mut e = hb_set_digest_bits_pattern_t::<4>::new();
    e.add(0x200);
    d.union(&e);
    assert_eq!(d.mask, (1 << 3) | 1);
    assert_eq!(hb_set_digest_bits_pattern_t::<4>::full().mask, u32::MAX);
    assert_eq!(hb_set_digest_bits_pattern_t::<0>::mask_for(33), 2);
    assert_eq!(hb_set_digest_bits_pattern_t::<0>::num_bits(), 5);
}

#[test]
fn digest_add_range_covers_the_range() {
    let mut d = hb_set_digest_bits_pattern_t::<0>::new();
    assert!(d.add_range(3, 6));
    assert_eq!(d.mask, 0b111_1000);
    let mut w = hb_set_digest_bits_pattern_t::<0>::new();
    assert!(w.add_range(30, 33));
    assert_eq!(w.mask, 0xC000_0003);
    let mut f = hb_set_digest_bits_pattern_t::<0>::new();
    assert!(!f.add_range(0, 100));
    assert_eq!(f.mask, u32::MAX);
    assert!(!f.add_range(1, 2));
}

#[test]
fn feature_mappings_are_found() {
    let i = find_mapping(Tag::from_bytes(b"smcp")).unwrap();
    let m = feature_mapping(i);
    assert_eq!(m.ot_feature_tag, Tag::from_bytes(b"smcp"));
    assert_eq!(m.selector_to_enable, 1);
    assert_eq!(m.selector_to_disable, 0);
    assert_eq!(find_mapping(Tag::from_bytes(b"kern")), None);
    assert!(find_mapping(Tag::from_bytes(b"liga")).is_some());
}

/// A `feat` table naming features `(type, setting count, exclusive)`, in
/// the order given.
fn feat_table(features: &[(u16, u16, bool)]) -> FeatureNames {
    let mut data = vec![0, 1, 0, 0];
    data.extend_from_slice(&(features.len() as u16).to_be_bytes());
    data.extend_from_slice(&[0; 6]);
    let mut offset = 12 + 12 * features.len() as u32;
    for &(feature, count, exclusive) in features {
        data.extend_from_slice(&feature.to_be_bytes());
        data.extend_from_slice(&count.to_be_bytes());
        data.extend_from_slice(&offset.to_be_bytes());
        data.push(if exclusive { 0x80 } else { 0 });
        data.push(0);
        data.extend_from_slice(&256u16.to_be_bytes());
        offset += 4 * count as u32;
    }
    for &(_, count, _) in features {
        for k in 0..count {
            data.extend_from_slice(&k.to_be_bytes());
            data.extend_from_slice(&(257 + k).to_be_bytes());
        }
    }
    FeatureNames { data }
}

fn font_features() -> FeatureNames {
    feat_table(&[(1, 4, false), (37, 2, true)])
}

#[test]
fn feature_names_are_found_by_type() {
    let feat = font_features();
    assert_eq!(feat.find(37), Some(FeatureName { feature: 37, setting_count: 2, exclusive: true }));
    assert_eq!(feat.find(1), Some(FeatureName { feature: 1, setting_count: 4, exclusive: false }));
    assert_eq!(feat.find(2), None);
    assert_eq!(FeatureNames { data: vec![0, 2, 0, 0] }.find(1), None);
}

#[test]
fn add_feature_selects_the_aat_setting() {
    let feat = font_features();
    let mut builder = hb_aat_map_builder_t { features: Vec::new() };
    assert_eq!(builder.add_feature(Some(&feat), Tag::from_bytes(b"smcp"), 1), Some(()));
    assert_eq!(builder.features, vec![feature_info_t { kind: 37, setting: 1, is_exclusive: true }]);
    assert_eq!(builder.add_feature(Some(&feat), Tag::from_bytes(b"kern"), 1), None);
    assert_eq!(builder.add_feature(None, Tag::from_bytes(b"smcp"), 1), None);
    assert_eq!(builder.features.len(), 1);
    // Without alternates in the font, `aalt` is accepted and adds nothing.
    assert_eq!(builder.add_feature(Some(&feat), Tag::from_bytes(b"aalt"), 1), Some(()));
    assert_eq!(builder.features.len(), 1);
}

#[test]
fn compile_sorts_and_merges_settings() {
    let mut builder = hb_aat_map_builder_t {
        features: vec![
            feature_info_t { kind: 3, setting: 1, is_exclusive: true },
            feature_info_t { kind: 1, setting: 0, is_exclusive: true },
            feature_info_t { kind: 3, setting: 2, is_exclusive: true },
        ],
    };
    builder.compile(None);
    assert_eq!(
        builder.features,
        vec![
            feature_info_t { kind: 1, setting: 0, is_exclusive: true },
            feature_info_t { kind: 3, setting: 1, is_exclusive: true },
        ]
    );
    let empty = hb_aat_map_t::default();
    assert!(empty.chain_flags.is_empty());
}

#[test]
fn compile_keeps_distinct_non_exclusive_settings() {
    let mut builder = hb_aat_map_builder_t {
        features: vec![
            feature_info_t { kind: 1, setting: 4, is_exclusive: false },
            feature_info_t { kind: 1, setting: 2, is_exclusive: false },
            feature_info_t { kind: 1, setting: 3, is_exclusive: false },
        ],
    };
    builder.compile(None);
    assert_eq!(
        builder.features,
        vec![
            feature_info_t { kind: 1, setting: 2, is_exclusive: false },
            feature_info_t { kind: 1, setting: 4, is_exclusive: false },
        ]
    );
}

#[test]
fn range_flags_from_the_index_on() {
    let flags = [
        range_flags_t { flags: 1, cluster_first: 0, cluster_last: 3 },
        range_flags_t { flags: 2, cluster_first: 4, cluster_last: 9 },
    ];
    let mut w = range_flag_t_wrapper::new();
    assert!(w.get().is_none());
    w.set_range_flags(&flags);
    assert_eq!(w.get().unwrap().len(), 2);
    w.set_range_flags_index(1);
    assert_eq!(w.get().unwrap(), &flags[1..]);
    w.set_range_flags_index(3);
    assert!(w.get().is_none());
}

#[test]
fn compile_keeps_the_first_added_of_equal_settings() {
    let f = |kind: u16, setting: u16| feature_info_t { kind, setting, is_exclusive: false };
    let mut builder = hb_aat_map_builder_t { features: vec![f(3, 5), f(1, 3), f(1, 2), f(1, 4)] };
    builder.compile(None);
    assert_eq!(builder.features, vec![f(1, 3), f(1, 4), f(3, 5)]);

    let mut builder = hb_aat_map_builder_t { features: vec![f(3, 5), f(1, 2), f(1, 3), f(1, 4)] };
    builder.compile(None);
    assert_eq!(builder.features, vec![f(1, 2), f(1, 4), f(3, 5)]);
}

/// A `morx` table whose chains have the given default flags and feature
/// entries `(type, setting, enable, disable)`, and no subtables.
fn morx_table(chains: &[(u32, &[(u16, u16, u32, u32)])]) -> MorxTable {
    let mut data = vec![0, 2, 0, 0];
    data.extend_from_slice(&(chains.len() as u32).to_be_bytes());
    for &(default_flags, features) in chains {
        data.extend_from_slice(&default_flags.to_be_bytes());
        data.extend_from_slice(&(16 + 12 * features.len() as u32).to_be_bytes());
        data.extend_from_slice(&(features.len() as u32).to_be_bytes());
        data.extend_from_slice(&0u32.to_be_bytes());
        for &(kind, setting, enable, disable) in features {
            data.extend_from_slice(&kind.to_be_bytes());
            data.extend_from_slice(&setting.to_be_bytes());
            data.extend_from_slice(&enable.to_be_bytes());
            data.extend_from_slice(&disable.to_be_bytes());
        }
    }
    MorxTable { data, number_of_glyphs: 10 }
}

#[test]
fn compile_gives_the_chain_flags() {
    let morx = morx_table(&[
        (0b0001, &[(1, 2, 0b0100, !0b0001), (1, 4, 0b1000, !0)]),
        (0b0010, &[(3, 3, 0b0100, !0b0010)]),
    ]);
    let mut builder = hb_aat_map_builder_t {
        features: vec![
            feature_info_t { kind: 1, setting: 2, is_exclusive: false },
            feature_info_t { kind: 37, setting: 1, is_exclusive: true },
        ],
    };
    let map = builder.compile(Some(&morx));
    // Chain 1: setting (1, 2) is selected: flag 1 off, flag 4 on; (1, 4) is not.
    // Chain 2: the deprecated small capitals apply through lower-case small capitals.
    assert_eq!(map.chain_flags, vec![0b0100, 0b0100]);

    let mut builder = hb_aat_map_builder_t { features: vec![] };
    assert_eq!(builder.compile(Some(&morx)).chain_flags, vec![0b0001, 0b0010]);
    assert!(builder.compile(None).chain_flags.is_empty());
    let broken = MorxTable { data: vec![0, 2], number_of_glyphs: 10 };
    assert!(builder.compile(Some(&broken)).chain_flags.is_empty());
    assert!(builder.has_feature(1, 2) == false);
}
