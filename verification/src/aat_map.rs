//! The map from OpenType features to the features of AAT morph tables.
use vstd::prelude::*;
use crate::common::Tag;

verus! {

/// The AAT feature types that OpenType features map to.
#[derive(Clone, Copy, PartialEq, Eq, Debug, Structural)]
pub enum FeatureType {
    /// The all-typographic-features type, which the `hist` feature maps to.
    Dummy,
    Ligatures,
    LetterCase,
    VerticalSubstitution,
    NumberSpacing,
    VerticalPosition,
    Fractions,
    TypographicExtras,
    MathematicalExtras,
    StyleOptions,
    CharacterShape,
    NumberCase,
    TextSpacing,
    Transliteration,
    RubyKana,
    ItalicCjkRoman,
    CaseSensitiveLayout,
    AlternateKana,
    StylisticAlternatives,
    ContextualAlternatives,
    LowerCase,
    UpperCase,
}

/// The number of a feature type in a font.
pub open spec fn feature_type_code(t: FeatureType) -> u16 {
    match t {
        FeatureType::Dummy => 0,
        FeatureType::Ligatures => 1,
        FeatureType::LetterCase => 3,
        FeatureType::VerticalSubstitution => 4,
        FeatureType::NumberSpacing => 6,
        FeatureType::VerticalPosition => 10,
        FeatureType::Fractions => 11,
        FeatureType::TypographicExtras => 14,
        FeatureType::MathematicalExtras => 15,
        FeatureType::StyleOptions => 19,
        FeatureType::CharacterShape => 20,
        FeatureType::NumberCase => 21,
        FeatureType::TextSpacing => 22,
        FeatureType::Transliteration => 23,
        FeatureType::RubyKana => 28,
        FeatureType::ItalicCjkRoman => 32,
        FeatureType::CaseSensitiveLayout => 33,
        FeatureType::AlternateKana => 34,
        FeatureType::StylisticAlternatives => 35,
        FeatureType::ContextualAlternatives => 36,
        FeatureType::LowerCase => 37,
        FeatureType::UpperCase => 38,
    }
}

/// The feature type numbered `c`; `Dummy` for numbers of no listed type.
pub open spec fn feature_type_from_code(c: u16) -> FeatureType {
    if c == 1 {
        FeatureType::Ligatures
    } else if c == 3 {
        FeatureType::LetterCase
    } else if c == 4 {
        FeatureType::VerticalSubstitution
    } else if c == 6 {
        FeatureType::NumberSpacing
    } else if c == 10 {
        FeatureType::VerticalPosition
    } else if c == 11 {
        FeatureType::Fractions
    } else if c == 14 {
        FeatureType::TypographicExtras
    } else if c == 15 {
        FeatureType::MathematicalExtras
    } else if c == 19 {
        FeatureType::StyleOptions
    } else if c == 20 {
        FeatureType::CharacterShape
    } else if c == 21 {
        FeatureType::NumberCase
    } else if c == 22 {
        FeatureType::TextSpacing
    } else if c == 23 {
        FeatureType::Transliteration
    } else if c == 28 {
        FeatureType::RubyKana
    } else if c == 32 {
        FeatureType::ItalicCjkRoman
    } else if c == 33 {
        FeatureType::CaseSensitiveLayout
    } else if c == 34 {
        FeatureType::AlternateKana
    } else if c == 35 {
        FeatureType::StylisticAlternatives
    } else if c == 36 {
        FeatureType::ContextualAlternatives
    } else if c == 37 {
        FeatureType::LowerCase
    } else if c == 38 {
        FeatureType::UpperCase
    } else {
        FeatureType::Dummy
    }
}

impl FeatureType {
    /// The number of this feature type in a font.
    pub fn to_u16(self) -> (r: u16)
        ensures
            r == feature_type_code(self),
    {
        match self {
            FeatureType::Dummy => 0,
            FeatureType::Ligatures => 1,
            FeatureType::LetterCase => 3,
            FeatureType::VerticalSubstitution => 4,
            FeatureType::NumberSpacing => 6,
            FeatureType::VerticalPosition => 10,
            FeatureType::Fractions => 11,
            FeatureType::TypographicExtras => 14,
            FeatureType::MathematicalExtras => 15,
            FeatureType::StyleOptions => 19,
            FeatureType::CharacterShape => 20,
            FeatureType::NumberCase => 21,
            FeatureType::TextSpacing => 22,
            FeatureType::Transliteration => 23,
            FeatureType::RubyKana => 28,
            FeatureType::ItalicCjkRoman => 32,
            FeatureType::CaseSensitiveLayout => 33,
            FeatureType::AlternateKana => 34,
            FeatureType::StylisticAlternatives => 35,
            FeatureType::ContextualAlternatives => 36,
            FeatureType::LowerCase => 37,
            FeatureType::UpperCase => 38,
        }
    }

    /// The feature type numbered `c`; `Dummy` for numbers of no listed type.
    pub fn from_u16(c: u16) -> (r: FeatureType)
        ensures
            r == feature_type_from_code(c),
    {
        if c == 1 {
            FeatureType::Ligatures
        } else if c == 3 {
            FeatureType::LetterCase
        } else if c == 4 {
            FeatureType::VerticalSubstitution
        } else if c == 6 {
            FeatureType::NumberSpacing
        } else if c == 10 {
            FeatureType::VerticalPosition
        } else if c == 11 {
            FeatureType::Fractions
        } else if c == 14 {
            FeatureType::TypographicExtras
        } else if c == 15 {
            FeatureType::MathematicalExtras
        } else if c == 19 {
            FeatureType::StyleOptions
        } else if c == 20 {
            FeatureType::CharacterShape
        } else if c == 21 {
            FeatureType::NumberCase
        } else if c == 22 {
            FeatureType::TextSpacing
        } else if c == 23 {
            FeatureType::Transliteration
        } else if c == 28 {
            FeatureType::RubyKana
        } else if c == 32 {
            FeatureType::ItalicCjkRoman
        } else if c == 33 {
            FeatureType::CaseSensitiveLayout
        } else if c == 34 {
            FeatureType::AlternateKana
        } else if c == 35 {
            FeatureType::StylisticAlternatives
        } else if c == 36 {
            FeatureType::ContextualAlternatives
        } else if c == 37 {
            FeatureType::LowerCase
        } else if c == 38 {
            FeatureType::UpperCase
        } else {
            FeatureType::Dummy
        }
    }
}

/// The feature type of character alternatives.
pub const FEATURE_TYPE_CHARACTER_ALTERNATIVES: u16 = 17;

/// The number of the letter-case feature type.
pub const FEATURE_TYPE_LETTER_CASE: u16 = 3;

/// The number of the lower-case feature type.
pub const FEATURE_TYPE_LOWER_CASE: u16 = 37;

/// The lower-case selector of small capitals.
pub const SELECTOR_LOWER_CASE_SMALL_CAPS: u8 = 1;

/// The mapping of an OpenType feature to an AAT feature type and its
/// selectors.
#[derive(Clone, Copy, PartialEq, Eq, Debug, Structural)]
pub struct FeatureMapping {
    pub ot_feature_tag: Tag,
    pub aat_feature_type: FeatureType,
    pub selector_to_enable: u8,
    pub selector_to_disable: u8,
}

/// The OpenType feature tags that have an AAT counterpart, in increasing order.
pub const FEATURE_MAPPING_TAGS: [u32; 77] = [
    0x61667263, 0x63327063, 0x63327363, 0x63616C74, 0x63617365, 0x636C6967,
    0x63707370, 0x63737768, 0x646C6967, 0x65787074, 0x66726163, 0x66776964,
    0x68616C74, 0x68697374, 0x686B6E61, 0x686C6967, 0x686E676C, 0x686F6A6F,
    0x68776964, 0x6974616C, 0x6A703034, 0x6A703738, 0x6A703833, 0x6A703930,
    0x6C696761, 0x6C6E756D, 0x6D67726B, 0x6E6C636B, 0x6F6E756D, 0x6F72646E,
    0x70616C74, 0x70636170, 0x706B6E61, 0x706E756D, 0x70776964, 0x71776964,
    0x72756279, 0x73696E66, 0x736D6370, 0x736D706C, 0x73733031, 0x73733032,
    0x73733033, 0x73733034, 0x73733035, 0x73733036, 0x73733037, 0x73733038,
    0x73733039, 0x73733130, 0x73733131, 0x73733132, 0x73733133, 0x73733134,
    0x73733135, 0x73733136, 0x73733137, 0x73733138, 0x73733139, 0x73733230,
    0x73756273, 0x73757073, 0x73777368, 0x7469746C, 0x746E616D, 0x746E756D,
    0x74726164, 0x74776964, 0x756E6963, 0x76616C74, 0x76657274, 0x7668616C,
    0x766B6E61, 0x7670616C, 0x76727432, 0x76727472, 0x7A65726F,
];

/// The AAT feature type of each mapped tag.
pub const FEATURE_MAPPING_TYPES: [u16; 77] = [
    11, 38, 38, 36, 33, 1, 33, 36, 1, 20, 11, 22, 22, 0, 34, 1,
    23, 20, 22, 32, 20, 20, 20, 20, 1, 21, 15, 20, 21, 10, 22, 37,
    22, 6, 22, 22, 28, 10, 37, 20, 35, 35, 35, 35, 35, 35, 35, 35,
    35, 35, 35, 35, 35, 35, 35, 35, 35, 35, 35, 35, 10, 10, 36, 19,
    20, 6, 20, 22, 3, 22, 4, 22, 34, 22, 4, 4, 14,
];

/// The selector that enables each mapped feature.
pub const FEATURE_MAPPING_ON: [u8; 77] = [
    1, 2, 1, 0, 0, 18, 2, 4, 4, 10, 2, 1, 6, 0, 0, 20,
    1, 12, 2, 2, 11, 2, 3, 4, 2, 1, 10, 13, 0, 3, 5, 2,
    0, 1, 0, 4, 2, 4, 1, 1, 2, 4, 6, 8, 10, 12, 14, 16,
    18, 20, 22, 24, 26, 28, 30, 32, 34, 36, 38, 40, 2, 1, 2, 4,
    14, 0, 0, 3, 14, 5, 0, 6, 2, 5, 0, 2, 4,
];

/// The selector that disables each mapped feature.
pub const FEATURE_MAPPING_OFF: [u8; 77] = [
    0, 0, 0, 1, 1, 19, 3, 5, 5, 16, 0, 7, 7, 1, 1, 21,
    0, 16, 7, 3, 16, 16, 16, 16, 3, 2, 11, 16, 2, 0, 7, 0,
    7, 4, 7, 7, 3, 0, 0, 16, 3, 5, 7, 9, 11, 13, 15, 17,
    19, 21, 23, 25, 27, 29, 31, 33, 35, 37, 39, 41, 0, 0, 3, 0,
    16, 4, 16, 7, 15, 7, 1, 7, 3, 7, 1, 3, 5,
];

/// The number of mapped features.
pub const FEATURE_MAPPING_COUNT: usize = 77;

/// Mapping `i`.
pub open spec fn mapping_at(i: int) -> FeatureMapping {
    FeatureMapping {
        ot_feature_tag: Tag(FEATURE_MAPPING_TAGS@[i]),
        aat_feature_type: feature_type_from_code(FEATURE_MAPPING_TYPES@[i]),
        selector_to_enable: FEATURE_MAPPING_ON@[i],
        selector_to_disable: FEATURE_MAPPING_OFF@[i],
    }
}

/// Mapping `i`.
pub fn feature_mapping(i: usize) -> (r: FeatureMapping)
    requires
        i < FEATURE_MAPPING_COUNT,
    ensures
        r == mapping_at(i as int),
{
    FeatureMapping {
        ot_feature_tag: Tag(FEATURE_MAPPING_TAGS[i]),
        aat_feature_type: FeatureType::from_u16(FEATURE_MAPPING_TYPES[i]),
        selector_to_enable: FEATURE_MAPPING_ON[i],
        selector_to_disable: FEATURE_MAPPING_OFF[i],
    }
}

/// The mapped tags increase.
proof fn lemma_tags_increase()
    ensures
        forall|i: int| 0 <= i < 76 ==> #[trigger] FEATURE_MAPPING_TAGS@[i] < FEATURE_MAPPING_TAGS@[i + 1],
{
}

/// The mapped tags are in increasing order.
proof fn lemma_tags_sorted(i: int, j: int)
    requires
        0 <= i < j < 77,
    ensures
        FEATURE_MAPPING_TAGS@[i] < FEATURE_MAPPING_TAGS@[j],
    decreases j - i,
{
    lemma_tags_increase();
    if j > i + 1 {
        lemma_tags_sorted(i, j - 1);
        assert(FEATURE_MAPPING_TAGS@[j - 1] < FEATURE_MAPPING_TAGS@[j]);
    }
}

/// The index of the mapping of `tag`, if there is one.
pub open spec fn mapping_index(tag: u32) -> Option<int> {
    if exists|i: int| 0 <= i < 77 && #[trigger] FEATURE_MAPPING_TAGS@[i] == tag {
        Some(choose|i: int| 0 <= i < 77 && #[trigger] FEATURE_MAPPING_TAGS@[i] == tag)
    } else {
        None
    }
}

/// Finds the mapping of `tag` by binary search.
pub fn find_mapping(tag: Tag) -> (r: Option<usize>)
    ensures
        r == (match mapping_index(tag.0) {
            Some(i) => Some(i as usize),
            None => None,
        }),
{
    let mut lo: usize = 0;
    let mut hi: usize = FEATURE_MAPPING_COUNT;
    while lo < hi
        invariant
            lo <= hi <= 77,
            forall|k: int| 0 <= k < lo ==> #[trigger] FEATURE_MAPPING_TAGS@[k] < tag.0,
            forall|k: int| hi <= k < 77 ==> #[trigger] FEATURE_MAPPING_TAGS@[k] > tag.0,
        decreases hi - lo,
    {
        let mid = lo + (hi - lo) / 2;
        let t = FEATURE_MAPPING_TAGS[mid];
        if t == tag.0 {
            proof {
                assert forall|i: int| 0 <= i < 77 && #[trigger] FEATURE_MAPPING_TAGS@[i] == tag.0 implies i == mid by {
                    if i < mid {
                        lemma_tags_sorted(i, mid as int);
                    } else if i > mid {
                        lemma_tags_sorted(mid as int, i);
                    }
                }
            }
            return Some(mid);
        } else if t < tag.0 {
            proof {
                assert forall|k: int| 0 <= k < mid + 1 implies #[trigger] FEATURE_MAPPING_TAGS@[k] < tag.0 by {
                    if k < mid {
                        lemma_tags_sorted(k, mid as int);
                    }
                }
            }
            lo = mid + 1;
        } else {
            proof {
                assert forall|k: int| mid <= k < 77 implies #[trigger] FEATURE_MAPPING_TAGS@[k] > tag.0 by {
                    if k > mid {
                        lemma_tags_sorted(mid as int, k);
                    }
                }
            }
            hi = mid;
        }
    }
    None
}


/// A feature of a font's `feat` table, as the map builder reads it: its
/// type, how many settings it names, whether they exclude each other.
#[derive(Clone, Copy, PartialEq, Eq, Debug, Structural)]
pub struct FeatureName {
    pub feature: u16,
    pub setting_count: u16,
    pub exclusive: bool,
}

/// A font's `feat` table, as its raw bytes.
pub struct FeatureNames {
    pub data: Vec<u8>,
}

/// What ttf-parser finds for feature type `feature` in the `feat` table
/// `table`: the table parsed by `ttf_parser::feat::Table::parse`, then the
/// feature looked up by `FeatureNames::find` (a binary search of the
/// table's records by type), read as a `FeatureName`.
pub uninterp spec fn feat_table_lookup(table: Seq<u8>, feature: u16) -> Option<FeatureName>;

/// Parses the `feat` table with ttf-parser and looks the feature up with
/// its `FeatureNames::find`. The contract names the result, which depends
/// on the table's bytes and the type alone, and claims only what the
/// source shows besides: a found feature has the type that was asked for.
#[verifier::external_body]
fn find_in_feat_table(table: &[u8], feature: u16) -> (r: Option<FeatureName>)
    ensures
        r == feat_table_lookup(table@, feature),
        r matches Some(n) ==> n.feature == feature,
{
    let names = match ttf_parser::feat::Table::parse(table) {
        Some(t) => t.names,
        None => return None,
    };
    match names.find(feature) {
        Some(n) => Some(FeatureName { feature: n.feature, setting_count: n.setting_names.len(), exclusive: n.exclusive }),
        None => None,
    }
}

impl FeatureNames {
    /// The feature of type `feature`, as ttf-parser finds it in the table.
    pub fn find(&self, feature: u16) -> (r: Option<FeatureName>)
        ensures
            r == feat_table_lookup(self.data@, feature),
            r matches Some(n) ==> n.feature == feature,
    {
        find_in_feat_table(self.data.as_slice(), feature)
    }
}

/// A selected AAT feature setting.
#[derive(Clone, Copy, PartialEq, Eq, Debug, Structural)]
pub struct feature_info_t {
    pub kind: u16,
    pub setting: u16,
    pub is_exclusive: bool,
}

/// The compiled map: the flags of each chain of the morph table.
pub struct hb_aat_map_t {
    pub chain_flags: Vec<u32>,
}

impl Default for hb_aat_map_t {
    fn default() -> (r: Self)
        ensures
            r.chain_flags@ == Seq::<u32>::empty(),
    {
        hb_aat_map_t { chain_flags: Vec::new() }
    }
}

/// The builder of an AAT map: the feature settings selected so far.
pub struct hb_aat_map_builder_t {
    pub features: Vec<feature_info_t>,
}

/// Whether a found feature names settings.
pub open spec fn has_settings(f: Option<FeatureName>) -> bool {
    match f {
        Some(n) => n.setting_count != 0,
        None => false,
    }
}

/// The setting that mapping `i` adds for value `value`, given the font's
/// features: the mapped feature, or for small capitals the deprecated
/// letter-case feature, when the font names settings for it.
pub open spec fn mapped_setting(table: Seq<u8>, i: int, value: u32) -> Seq<feature_info_t> {
    let t = FEATURE_MAPPING_TYPES@[i];
    let f1 = feat_table_lookup(table, t);
    let f2 = if has_settings(f1) {
        f1
    } else if t == FEATURE_TYPE_LOWER_CASE && FEATURE_MAPPING_ON@[i] == SELECTOR_LOWER_CASE_SMALL_CAPS {
        feat_table_lookup(table, FEATURE_TYPE_LETTER_CASE)
    } else {
        f1
    };
    match f2 {
        Some(n) => if n.setting_count != 0 {
            seq![feature_info_t {
                kind: t,
                setting: (if value != 0 { FEATURE_MAPPING_ON@[i] } else { FEATURE_MAPPING_OFF@[i] }) as u16,
                is_exclusive: n.exclusive,
            }]
        } else {
            seq![]
        },
        None => seq![],
    }
}

/// The tag of the access-all-alternates feature.
pub const AALT_TAG: u32 = 0x61616C74;

/// What `add_feature` appends for `tag` and `value` given the font's
/// features, and what it returns.
pub open spec fn added_features(table: Seq<u8>, tag: u32, value: u32) -> (Seq<feature_info_t>, Option<()>) {
    let exposes = has_settings(feat_table_lookup(table, FEATURE_TYPE_CHARACTER_ALTERNATIVES));
    if tag == AALT_TAG && !exposes {
        (seq![], Some(()))
    } else {
        let aalt = if tag == AALT_TAG {
            seq![feature_info_t { kind: FEATURE_TYPE_CHARACTER_ALTERNATIVES, setting: value as u16, is_exclusive: true }]
        } else {
            seq![]
        };
        match mapping_index(tag) {
            Some(i) => (aalt + mapped_setting(table, i, value), Some(())),
            None => (aalt, None),
        }
    }
}

impl hb_aat_map_builder_t {
    /// Selects the AAT setting of OpenType feature `tag` with value `value`
    /// in a font whose `feat` table has the features `feat` (none without
    /// the table).  Without the table, or for a tag with no AAT
    /// counterpart, returns `None`.
    pub fn add_feature(&mut self, feat: Option<&FeatureNames>, tag: Tag, value: u32) -> (r: Option<()>)
        ensures
            feat is None ==> r is None && final(self).features@ == old(self).features@,
            feat matches Some(f) ==> {
                &&& final(self).features@ == old(self).features@ + added_features(f.data@, tag.0, value).0
                &&& r == added_features(f.data@, tag.0, value).1
            },
    {
        let feat = match feat {
            Some(f) => f,
            None => {
                return None;
            },
        };
        let ghost start = self.features@;
        if tag.0 == AALT_TAG {
            let exposes_feature = match feat.find(FEATURE_TYPE_CHARACTER_ALTERNATIVES) {
                Some(f) => f.setting_count != 0,
                None => false,
            };
            if !exposes_feature {
                assert(self.features@ =~= start + seq![]);
                return Some(());
            }
            self.features.push(
                feature_info_t {
                    kind: FEATURE_TYPE_CHARACTER_ALTERNATIVES,
                    setting: value as u16,
                    is_exclusive: true,
                },
            );
        }
        let ghost mid = self.features@;
        let idx = match find_mapping(tag) {
            Some(i) => i,
            None => {
                assert(self.features@ =~= start + added_features(feat.data@, tag.0, value).0);
                return None;
            },
        };
        let mapping = feature_mapping(idx);
        let t = mapping.aat_feature_type.to_u16();
        proof {
            lemma_type_codes();
        }
        assert(t == FEATURE_MAPPING_TYPES@[idx as int]);
        let mut feature = feat.find(t);
        let usable = match feature {
            Some(f) => f.setting_count != 0,
            None => false,
        };
        if !usable {
            if t == FEATURE_TYPE_LOWER_CASE && mapping.selector_to_enable
                == SELECTOR_LOWER_CASE_SMALL_CAPS {
                feature = feat.find(FEATURE_TYPE_LETTER_CASE);
            }
        }
        match feature {
            Some(f) => {
                if f.setting_count != 0 {
                    let setting = if value != 0 {
                        mapping.selector_to_enable
                    } else {
                        mapping.selector_to_disable
                    } as u16;
                    self.features.push(feature_info_t { kind: t, setting, is_exclusive: f.exclusive });
                }
            },
            None => {},
        }
        assert(self.features@ =~= start + added_features(feat.data@, tag.0, value).0);
        Some(())
    }
}

/// The number of each mapped feature type is that of its variant.
proof fn lemma_type_codes()
    ensures
        forall|i: int|
            0 <= i < 77 ==> #[trigger] feature_type_code(feature_type_from_code(FEATURE_MAPPING_TYPES@[i]))
                == FEATURE_MAPPING_TYPES@[i],
{
}


/// Whether `a` sorts before `b`: by kind, then, for a non-exclusive `a`
/// whose setting pair differs from `b`'s, by setting.
pub open spec fn feature_before(a: feature_info_t, b: feature_info_t) -> bool {
    if a.kind != b.kind {
        a.kind < b.kind
    } else if !a.is_exclusive && (a.setting & 0xFFFEu16) != (b.setting & 0xFFFEu16) {
        a.setting < b.setting
    } else {
        false
    }
}

/// No feature sorts before the one just before it.
pub open spec fn features_sorted(s: Seq<feature_info_t>) -> bool {
    forall|k: int| 0 <= k < s.len() - 1 ==> !feature_before(#[trigger] s[k + 1], s[k])
}

/// `s` with `x` added at the end and moved back past every feature that it
/// sorts before (see `feature_before`), stopping at the first one that it
/// does not: equal features keep their order.
pub open spec fn inserted_back(s: Seq<feature_info_t>, x: feature_info_t) -> Seq<feature_info_t>
    decreases s.len(),
{
    if s.len() == 0 || !feature_before(x, s.last()) {
        s.push(x)
    } else {
        inserted_back(s.drop_last(), x).push(s.last())
    }
}

/// The stable sort of `s` by `feature_before`: each feature in turn
/// inserted after the ones added before it that it does not sort before.
pub open spec fn stably_sorted(s: Seq<feature_info_t>) -> Seq<feature_info_t>
    decreases s.len(),
{
    if s.len() == 0 {
        s
    } else {
        inserted_back(stably_sorted(s.drop_last()), s.last())
    }
}

/// Inserting past a tail that `x` sorts before wholly is inserting before
/// that tail.
proof fn lemma_inserted_back_split(p: Seq<feature_info_t>, q: Seq<feature_info_t>, x: feature_info_t)
    requires
        forall|k: int| 0 <= k < q.len() ==> feature_before(x, #[trigger] q[k]),
    ensures
        inserted_back(p + q, x) == inserted_back(p, x) + q,
    decreases q.len(),
{
    if q.len() > 0 {
        let q1 = q.drop_last();
        assert((p + q).drop_last() =~= p + q1);
        assert((p + q).last() == q.last());
        lemma_inserted_back_split(p, q1, x);
        assert(inserted_back(p, x) + q =~= (inserted_back(p, x) + q1).push(q.last()));
    } else {
        assert(p + q =~= p);
        assert(inserted_back(p, x) + q =~= inserted_back(p, x));
    }
}

/// Whether `x` selects another setting than `last`: another kind, or, for a
/// non-exclusive `x`, another on/off pair of selectors.
pub open spec fn is_new_setting(x: feature_info_t, last: feature_info_t) -> bool {
    x.kind != last.kind || (!x.is_exclusive && (x.setting & 0xFFFEu16) != (last.setting
        & 0xFFFEu16))
}

/// `s` with every feature that selects the same setting as the one kept
/// before it dropped.
pub open spec fn merged_features(s: Seq<feature_info_t>) -> Seq<feature_info_t>
    decreases s.len(),
{
    if s.len() <= 1 {
        s
    } else {
        let r = merged_features(s.drop_last());
        if is_new_setting(s.last(), r.last()) {
            r.push(s.last())
        } else {
            r
        }
    }
}

/// A merged sequence is not empty when the sequence is not.
proof fn lemma_merged_len(s: Seq<feature_info_t>)
    ensures
        s.len() > 0 ==> merged_features(s).len() > 0,
        merged_features(s).len() <= s.len(),
    decreases s.len(),
{
    if s.len() > 1 {
        lemma_merged_len(s.drop_last());
    }
}

fn feature_before_exec(a: &feature_info_t, b: &feature_info_t) -> (r: bool)
    ensures
        r == feature_before(*a, *b),
{
    if a.kind != b.kind {
        a.kind < b.kind
    } else if !a.is_exclusive && (a.setting & 0xFFFE) != (b.setting & 0xFFFE) {
        a.setting < b.setting
    } else {
        false
    }
}

/// Swaps the features at `j - 1` and `j`.
fn swap_down(v: &mut Vec<feature_info_t>, j: usize)
    requires
        0 < j < old(v)@.len(),
    ensures
        final(v)@ == old(v)@.update(j - 1, old(v)@[j as int]).update(j as int, old(v)@[j - 1]),
        final(v)@.to_multiset() == old(v)@.to_multiset(),
{
    let a = v[j - 1];
    let b = v[j];
    v.set(j - 1, b);
    v.set(j, a);
    proof {
        let s = old(v)@;
        let s1 = s.update(j - 1, b);
        broadcast use vstd::multiset::group_multiset_axioms;
        vstd::seq_lib::to_multiset_update(s, j - 1, b);
        vstd::seq_lib::to_multiset_update(s1, j as int, a);
        assert(s1[j as int] == b);
        assert(s[j - 1] == a);
        assert(s.to_multiset().count(a) > 0) by {
            vstd::seq_lib::to_multiset_contains(s, a);
            assert(s.contains(a));
        }
        assert(s.to_multiset().insert(b).remove(a).count(b) > 0);
        assert(v@.to_multiset() =~= s.to_multiset());
    }
}

impl hb_aat_map_builder_t {
    /// Sorts the selected settings (stably, by kind, then the settings of
    /// non-exclusive features) and keeps one of each run that selects the
    /// same setting.
    fn sort_and_merge(&mut self)
        ensures
            stably_sorted(old(self).features@).to_multiset() == old(self).features@.to_multiset(),
            features_sorted(stably_sorted(old(self).features@)),
            final(self).features@ == merged_features(stably_sorted(old(self).features@)),
    {
        let n = self.features.len();
        let ghost orig = self.features@;
        let mut i: usize = 1;
        if n > 0 {
            proof {
                let o1 = orig.subrange(0, 1);
                assert(o1.drop_last() =~= Seq::<feature_info_t>::empty());
                assert(Seq::<feature_info_t>::empty().push(o1.last()) =~= o1);
                assert(stably_sorted(o1.drop_last()) == o1.drop_last());
                assert(inserted_back(o1.drop_last(), o1.last()) == o1.drop_last().push(o1.last()));
                assert(stably_sorted(o1) == o1);
                assert(self.features@.subrange(0, 1) =~= o1);
                assert(self.features@.subrange(1, n as int) =~= orig.subrange(1, n as int));
            }
            while i < n
                invariant
                    1 <= i <= n,
                    n == self.features@.len(),
                    self.features@.to_multiset() == orig.to_multiset(),
                    forall|k: int| 0 <= k < i - 1 ==> !feature_before(#[trigger] self.features@[k + 1], self.features@[k]),
                    self.features@.subrange(0, i as int) == stably_sorted(orig.subrange(0, i as int)),
                    self.features@.subrange(i as int, n as int) == orig.subrange(i as int, n as int),
                    orig.len() == n,
                decreases n - i,
            {
                let ghost big_s = self.features@.subrange(0, i as int);
                let ghost x = self.features@[i as int];
                let ghost rest = self.features@.subrange(i + 1, n as int);
                proof {
                    assert(self.features@.subrange(i as int, n as int)[0] == x);
                    assert(orig.subrange(i as int, n as int)[0] == orig[i as int]);
                    assert forall|k: int| 0 <= k < rest.len() implies rest[k] == orig[i + 1 + k] by {
                        assert(rest[k] == self.features@.subrange(i as int, n as int)[k + 1]);
                        assert(orig.subrange(i as int, n as int)[k + 1] == orig[i + 1 + k]);
                    }
                    assert(rest =~= orig.subrange(i + 1, n as int));
                }
                let mut j = i;
                while j > 0 && feature_before_exec(&self.features[j], &self.features[j - 1])
                    invariant
                        0 <= j <= i < n,
                        n == self.features@.len(),
                        self.features@.to_multiset() == orig.to_multiset(),
                        forall|k: int| 0 <= k < j - 1 ==> !feature_before(#[trigger] self.features@[k + 1], self.features@[k]),
                        forall|k: int| j < k < i ==> !feature_before(#[trigger] self.features@[k + 1], self.features@[k]),
                        j < i ==> feature_before(self.features@[j as int], self.features@[j + 1]),
                        0 < j < i ==> !feature_before(self.features@[j + 1], self.features@[j - 1]),
                        self.features@[j as int] == x,
                        self.features@.subrange(0, j as int) + self.features@.subrange(j + 1, i + 1) == big_s,
                        forall|k: int| j < k <= i ==> feature_before(x, #[trigger] self.features@[k]),
                        self.features@.subrange(i + 1, n as int) == rest,
                    decreases j,
                {
                    let ghost before = self.features@;
                    swap_down(&mut self.features, j);
                    proof {
                        if j >= 2 {
                            assert(!feature_before(before[j - 2 + 1], before[j - 2]));
                        }
                        let v = self.features@;
                        assert(v.subrange(0, j - 1) + v.subrange(j as int, i + 1) =~= before.subrange(0, j as int) + before.subrange(j + 1, i + 1));
                        assert(v.subrange(i + 1, n as int) =~= before.subrange(i + 1, n as int));
                    }
                    j = j - 1;
                }
                proof {
                    let v = self.features@;
                    let pp = v.subrange(0, j as int);
                    let qq = v.subrange(j + 1, i + 1);
                    assert forall|k: int| 0 <= k < qq.len() implies feature_before(x, #[trigger] qq[k]) by {
                        assert(qq[k] == v[j + 1 + k]);
                    }
                    lemma_inserted_back_split(pp, qq, x);
                    if j > 0 {
                        assert(pp.last() == v[j - 1]);
                        assert(!feature_before(x, pp.last()));
                    }
                    assert(inserted_back(pp, x) =~= pp.push(x));
                    assert(v.subrange(0, i + 1) =~= pp.push(x) + qq);
                    assert(orig.subrange(0, i + 1).drop_last() =~= orig.subrange(0, i as int));
                    assert(orig.subrange(0, i + 1).last() == x);
                    assert(v.subrange(i + 1, n as int) =~= orig.subrange(i + 1, n as int));
                    assert forall|k: int| 0 <= k < i implies !feature_before(#[trigger] v[k + 1], v[k]) by {
                        if k == j - 1 {
                        } else if k == j as int {
                            if j < i {
                                assert(feature_before(v[j as int], v[j + 1]));
                            }
                        }
                    }
                }
                i = i + 1;
            }
        }
        let ghost sorted = self.features@;
        assert(features_sorted(sorted));
        proof {
            if n > 0 {
                assert(sorted.subrange(0, n as int) =~= sorted);
                assert(orig.subrange(0, n as int) =~= orig);
            } else {
                assert(orig =~= Seq::<feature_info_t>::empty());
            }
            assert(sorted == stably_sorted(orig));
        }
        // Keep one feature of each run that selects the same setting.
        let mut j: usize = 0;
        let mut i: usize = 0;
        while i < n
            invariant
                n == sorted.len(),
                self.features@.len() == n,
                i <= n,
                i == 0 ==> j == 0,
                i > 0 ==> j < i,
                i > 0 ==> self.features@.subrange(0, j + 1) == merged_features(sorted.subrange(0, i as int)),
                forall|k: int| i <= k < n ==> #[trigger] self.features@[k] == sorted[k],
                i == 0 ==> self.features@ == sorted,
            decreases n - i,
        {
            let x = self.features[i];
            let last = self.features[j];
            let non_exclusive = !x.is_exclusive && (x.setting & 0xFFFE) != (last.setting & 0xFFFE);
            let ghost pre = self.features@;
            let ghost oj = j as int;
            if x.kind != last.kind || non_exclusive {
                j = j + 1;
                self.features.set(j, x);
            }
            proof {
                let p = sorted.subrange(0, i + 1);
                assert(p.drop_last() =~= sorted.subrange(0, i as int));
                if i == 0 {
                    assert(self.features@.subrange(0, j + 1) =~= p);
                } else {
                    lemma_merged_len(sorted.subrange(0, i as int));
                    assert(pre.subrange(0, oj + 1).last() == last);
                    if is_new_setting(x, last) {
                        assert(self.features@.subrange(0, j + 1) =~= pre.subrange(0, oj + 1).push(x));
                    } else {
                        assert(self.features@.subrange(0, j + 1) =~= pre.subrange(0, oj + 1));
                    }
                }
            }
            i = i + 1;
        }
        if n > 0 {
            self.features.truncate(j + 1);
            assert(self.features@ =~= merged_features(sorted.subrange(0, n as int)));
            assert(sorted.subrange(0, n as int) =~= sorted);
        } else {
            self.features.truncate(j + 1);
            assert(self.features@ =~= merged_features(sorted));
        }
    }
}

/// Selector of the deprecated small-capitals setting of the letter-case
/// feature.
pub const SELECTOR_SMALL_CAPS: u16 = 3;

/// A feature entry of a morph table chain: the setting it answers and the
/// flags it turns on and keeps.
#[derive(Clone, Copy, PartialEq, Eq, Debug, Structural)]
pub struct MorxFeature {
    pub kind: u16,
    pub setting: u16,
    pub enable_flags: u32,
    pub disable_flags: u32,
}

/// A chain of a morph table: its default flags and its feature entries.
#[derive(Clone, Debug)]
pub struct MorxChain {
    pub default_flags: u32,
    pub features: Vec<MorxFeature>,
}

/// A chain as plain values.
pub open spec fn chain_model(c: MorxChain) -> (u32, Seq<MorxFeature>) {
    (c.default_flags, c.features@)
}

/// A font's `morx` table, as its raw bytes, with the font's number of
/// glyphs (from `maxp`), which reading the table needs.
pub struct MorxTable {
    pub data: Vec<u8>,
    pub number_of_glyphs: u16,
}

/// The chains that ttf-parser reads from the `morx` table `table` of a font
/// with `number_of_glyphs` glyphs (`morx::Table::parse`, then its chains in
/// order, each with its default flags and feature entries), or `None` when
/// it cannot parse the table.
pub uninterp spec fn morx_chains(table: Seq<u8>, number_of_glyphs: u16) -> Option<Seq<(u32, Seq<MorxFeature>)>>;

/// Reads the chains of a `morx` table with ttf-parser, each turned into
/// plain values. The contract names the result, which depends on the bytes
/// and the number of glyphs alone.
#[verifier::external_body]
fn read_morx_chains(table: &[u8], number_of_glyphs: u16) -> (r: Option<Vec<MorxChain>>)
    requires
        number_of_glyphs != 0,
    ensures
        r is None <==> morx_chains(table@, number_of_glyphs) is None,
        r matches Some(v) ==> morx_chains(table@, number_of_glyphs) == Some(v@.map_values(|c: MorxChain| chain_model(c))),
{
    let n = core::num::NonZeroU16::new(number_of_glyphs)?;
    let parsed = ttf_parser::morx::Table::parse(n, table)?;
    let mut chains = Vec::new();
    for chain in parsed.chains {
        let features = chain.features.into_iter().map(|f| MorxFeature {
            kind: f.kind, setting: f.setting, enable_flags: f.enable_flags, disable_flags: f.disable_flags,
        }).collect();
        chains.push(MorxChain { default_flags: chain.default_flags, features });
    }
    Some(chains)
}

/// The chains of the font's morph table, if it has one that ttf-parser reads.
pub open spec fn morx_model(morx: Option<&MorxTable>) -> Option<Seq<(u32, Seq<MorxFeature>)>> {
    match morx {
        Some(t) => if t.number_of_glyphs == 0 { None } else { morx_chains(t.data@, t.number_of_glyphs) },
        None => None,
    }
}

/// Whether some selected setting has type `kind` and selector `setting`.
pub open spec fn selects(features: Seq<feature_info_t>, kind: u16, setting: u16) -> bool {
    exists|k: int| 0 <= k < features.len() && #[trigger] features[k].kind == kind && features[k].setting == setting
}

/// Whether the chain's feature entry `f` applies: its setting is selected,
/// or it is the deprecated small-capitals setting and lower-case small
/// capitals are selected.
pub open spec fn entry_applies(features: Seq<feature_info_t>, f: MorxFeature) -> bool {
    selects(features, f.kind, f.setting) || (f.kind == FEATURE_TYPE_LETTER_CASE && f.setting == SELECTOR_SMALL_CAPS
        && selects(features, FEATURE_TYPE_LOWER_CASE, SELECTOR_LOWER_CASE_SMALL_CAPS as u16))
}

/// The flags of a chain after its first `n` feature entries, from its
/// default flags: each entry that applies keeps the flags of its disable
/// mask, then adds its enable flags.
pub open spec fn flags_after(features: Seq<feature_info_t>, default_flags: u32, entries: Seq<MorxFeature>, n: int) -> u32
    decreases n,
{
    if n <= 0 {
        default_flags
    } else {
        let prev = flags_after(features, default_flags, entries, n - 1);
        let f = entries[n - 1];
        if entry_applies(features, f) {
            (prev & f.disable_flags) | f.enable_flags
        } else {
            prev
        }
    }
}

/// The flags of each chain, for the selected settings `features`.
pub open spec fn chain_flags_for(features: Seq<feature_info_t>, chains: Seq<(u32, Seq<MorxFeature>)>) -> Seq<u32> {
    Seq::new(chains.len(), |i: int| flags_after(features, chains[i].0, chains[i].1, chains[i].1.len() as int))
}

impl hb_aat_map_builder_t {
    /// Whether a setting of type `kind` and selector `setting` is selected.
    pub fn has_feature(&self, kind: u16, setting: u16) -> (r: bool)
        ensures
            r == selects(self.features@, kind, setting),
    {
        let mut i: usize = 0;
        while i < self.features.len()
            invariant
                i <= self.features@.len(),
                forall|k: int| 0 <= k < i ==> !(#[trigger] self.features@[k].kind == kind && self.features@[k].setting == setting),
            decreases self.features@.len() - i,
        {
            if self.features[i].kind == kind && self.features[i].setting == setting {
                return true;
            }
            i = i + 1;
        }
        false
    }

    /// The flags of each chain of the morph table for the selected
    /// settings: `None` when the font has no morph table that can be read.
    pub fn compile_flags(&self, morx: Option<&MorxTable>) -> (r: Option<hb_aat_map_t>)
        ensures
            match morx_model(morx) {
                None => r is None,
                Some(chains) => r matches Some(m) && m.chain_flags@ == chain_flags_for(self.features@, chains),
            },
    {
        let t = match morx {
            Some(t) => t,
            None => return None,
        };
        if t.number_of_glyphs == 0 {
            return None;
        }
        let chains = match read_morx_chains(t.data.as_slice(), t.number_of_glyphs) {
            Some(c) => c,
            None => return None,
        };
        let ghost model = chains@.map_values(|c: MorxChain| chain_model(c));
        let mut flags_out: Vec<u32> = Vec::new();
        let mut ci: usize = 0;
        while ci < chains.len()
            invariant
                ci <= chains@.len(),
                model == chains@.map_values(|c: MorxChain| chain_model(c)),
                flags_out@ == chain_flags_for(self.features@, model.subrange(0, ci as int)),
            decreases chains@.len() - ci,
        {
            let chain = &chains[ci];
            let mut flags = chain.default_flags;
            let mut k: usize = 0;
            while k < chain.features.len()
                invariant
                    k <= chain.features@.len(),
                    flags == flags_after(self.features@, chain.default_flags, chain.features@, k as int),
                decreases chain.features@.len() - k,
            {
                let f = chain.features[k];
                if self.has_feature(f.kind, f.setting) {
                    flags = (flags & f.disable_flags) | f.enable_flags;
                } else if f.kind == FEATURE_TYPE_LETTER_CASE && f.setting == SELECTOR_SMALL_CAPS {
                    if self.has_feature(FEATURE_TYPE_LOWER_CASE, SELECTOR_LOWER_CASE_SMALL_CAPS as u16) {
                        flags = (flags & f.disable_flags) | f.enable_flags;
                    }
                }
                k = k + 1;
            }
            flags_out.push(flags);
            proof {
                assert(model[ci as int] == chain_model(chains@[ci as int]));
                assert(chain_flags_for(self.features@, model.subrange(0, ci + 1)) =~= chain_flags_for(
                    self.features@,
                    model.subrange(0, ci as int),
                ).push(flags));
            }
            ci = ci + 1;
        }
        proof {
            assert(model.subrange(0, chains@.len() as int) =~= model);
        }
        Some(hb_aat_map_t { chain_flags: flags_out })
    }

    /// Sorts the selected settings (stably, by kind, then the settings of
    /// non-exclusive features), keeps one of each run that selects the same
    /// setting, and gives the flags of each chain of the font's morph table
    /// for them (no flags without a morph table that can be read).
    pub fn compile(&mut self, morx: Option<&MorxTable>) -> (r: hb_aat_map_t)
        ensures
            stably_sorted(old(self).features@).to_multiset() == old(self).features@.to_multiset(),
            features_sorted(stably_sorted(old(self).features@)),
            final(self).features@ == merged_features(stably_sorted(old(self).features@)),
            r.chain_flags@ == match morx_model(morx) {
                None => Seq::<u32>::empty(),
                Some(chains) => chain_flags_for(final(self).features@, chains),
            },
    {
        self.sort_and_merge();
        match self.compile_flags(morx) {
            Some(m) => m,
            None => hb_aat_map_t::default(),
        }
    }
}

} // verus!
