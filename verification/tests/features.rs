use rustybuzz::common::{Feature, RangeBound, Tag};

#[test]
fn parse_01() {
    assert_eq!(
        Feature::parse("kern").unwrap(),
        Feature::new(Tag::from_bytes(b"kern"), 1, RangeBound::Unbounded, RangeBound::Unbounded)
    );
}

#[test]
fn parse_02() {
    assert_eq!(
        Feature::parse("+kern").unwrap(),
        Feature::new(Tag::from_bytes(b"kern"), 1, RangeBound::Unbounded, RangeBound::Unbounded)
    );
}

#[test]
fn parse_03() {
    assert_eq!(
        Feature::parse("-kern").unwrap(),
        Feature::new(Tag::from_bytes(b"kern"), 0, RangeBound::Unbounded, RangeBound::Unbounded)
    );
}

#[test]
fn parse_04() {
    assert_eq!(
        Feature::parse("kern=0").unwrap(),
        Feature::new(Tag::from_bytes(b"kern"), 0, RangeBound::Unbounded, RangeBound::Unbounded)
    );
}

#[test]
fn parse_05() {
    assert_eq!(
        Feature::parse("kern=1").unwrap(),
        Feature::new(Tag::from_bytes(b"kern"), 1, RangeBound::Unbounded, RangeBound::Unbounded)
    );
}

#[test]
fn parse_06() {
    assert_eq!(
        Feature::parse("kern=2").unwrap(),
        Feature::new(Tag::from_bytes(b"kern"), 2, RangeBound::Unbounded, RangeBound::Unbounded)
    );
}

#[test]
fn parse_07() {
    assert_eq!(
        Feature::parse("kern[]").unwrap(),
        Feature::new(Tag::from_bytes(b"kern"), 1, RangeBound::Unbounded, RangeBound::Unbounded)
    );
}

#[test]
fn parse_08() {
    assert_eq!(
        Feature::parse("kern[:]").unwrap(),
        Feature::new(Tag::from_bytes(b"kern"), 1, RangeBound::Unbounded, RangeBound::Unbounded)
    );
}

#[test]
fn parse_09() {
    assert_eq!(
        Feature::parse("kern[5:]").unwrap(),
        Feature::new(Tag::from_bytes(b"kern"), 1, RangeBound::Included(5), RangeBound::Unbounded)
    );
}

#[test]
fn parse_10() {
    assert_eq!(
        Feature::parse("kern[:5]").unwrap(),
        Feature::new(Tag::from_bytes(b"kern"), 1, RangeBound::Unbounded, RangeBound::Included(5))
    );
}

#[test]
fn parse_11() {
    assert_eq!(
        Feature::parse("kern[3:5]").unwrap(),
        Feature::new(Tag::from_bytes(b"kern"), 1, RangeBound::Included(3), RangeBound::Included(5))
    );
}

#[test]
fn parse_12() {
    assert_eq!(
        Feature::parse("kern[3]").unwrap(),
        Feature::new(Tag::from_bytes(b"kern"), 1, RangeBound::Included(3), RangeBound::Included(4))
    );
}

#[test]
fn parse_13() {
    assert_eq!(
        Feature::parse("kern[3:5]=2").unwrap(),
        Feature::new(Tag::from_bytes(b"kern"), 2, RangeBound::Included(3), RangeBound::Included(5))
    );
}

#[test]
fn parse_14() {
    assert_eq!(
        Feature::parse("kern[3;5]=2").unwrap(),
        Feature::new(Tag::from_bytes(b"kern"), 2, RangeBound::Included(3), RangeBound::Included(5))
    );
}

#[test]
fn parse_15() {
    assert_eq!(
        Feature::parse("kern[:-1]").unwrap(),
        Feature::new(Tag::from_bytes(b"kern"), 1, RangeBound::Unbounded, RangeBound::Unbounded)
    );
}

#[test]
fn parse_16() {
    assert_eq!(
        Feature::parse("kern[-1]").unwrap(),
        Feature::new(Tag::from_bytes(b"kern"), 1, RangeBound::Included(std::u32::MAX as usize), RangeBound::Unbounded)
    );
}

#[test]
fn parse_17() {
    assert_eq!(
        Feature::parse("kern=on").unwrap(),
        Feature::new(Tag::from_bytes(b"kern"), 1, RangeBound::Unbounded, RangeBound::Unbounded)
    );
}

#[test]
fn parse_18() {
    assert_eq!(
        Feature::parse("kern=off").unwrap(),
        Feature::new(Tag::from_bytes(b"kern"), 0, RangeBound::Unbounded, RangeBound::Unbounded)
    );
}

#[test]
fn parse_19() {
    assert_eq!(
        Feature::parse("kern=oN").unwrap(),
        Feature::new(Tag::from_bytes(b"kern"), 1, RangeBound::Unbounded, RangeBound::Unbounded)
    );
}

#[test]
fn parse_20() {
    assert_eq!(
        Feature::parse("kern=oFf").unwrap(),
        Feature::new(Tag::from_bytes(b"kern"), 0, RangeBound::Unbounded, RangeBound::Unbounded)
    );
}

#[test]
fn parse_rejects_empty_and_junk() {
    assert_eq!(Feature::parse(""), None);
    assert_eq!(Feature::parse("kern[3"), None);
    assert_eq!(Feature::parse("kern=x"), None);
}
