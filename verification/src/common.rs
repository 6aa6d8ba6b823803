//! Tags, text directions, scripts, languages and feature settings.

use vstd::prelude::*;
use vstd::string::StringSliceAdditionalSpecFns;

verus! {

/// The number that four bytes spell, most significant first.
pub open spec fn tag_value(b0: u8, b1: u8, b2: u8, b3: u8) -> int {
    b0 as int * 0x1000000 + b1 as int * 0x10000 + b2 as int * 0x100 + b3 as int
}

/// A 4-byte tag.
#[derive(Clone, Copy, PartialEq, Eq, PartialOrd, Ord, Hash, Debug, Structural)]
pub struct Tag(pub u32);

impl Tag {
    /// The tag spelled by four bytes, the first one most significant.
    pub fn from_bytes(bytes: &[u8; 4]) -> (r: Tag)
        ensures
            r.0 == tag_value(bytes[0], bytes[1], bytes[2], bytes[3]),
    {
        let b0 = bytes[0];
        let b1 = bytes[1];
        let b2 = bytes[2];
        let b3 = bytes[3];
        let v: u32 = ((b0 as u32) << 24u32) | ((b1 as u32) << 16u32) | ((b2 as u32) << 8u32)
            | (b3 as u32);
        assert(((b0 as u32) << 24u32) | ((b1 as u32) << 16u32) | ((b2 as u32) << 8u32) | (b3 as u32)
            == b0 as u32 * 0x1000000 + b1 as u32 * 0x10000 + b2 as u32 * 0x100 + b3 as u32)
            by (bit_vector);
        Tag(v)
    }

    /// The tag spelled by the first four bytes of `bytes`; shorter input is
    /// padded with spaces, and empty input gives the null tag.
    pub fn from_bytes_lossy(bytes: &[u8]) -> (r: Tag)
        ensures
            bytes@.len() == 0 ==> r.0 == 0,
            bytes@.len() > 0 ==> r.0 == tag_value(
                padded_byte(bytes@, 0),
                padded_byte(bytes@, 1),
                padded_byte(bytes@, 2),
                padded_byte(bytes@, 3),
            ),
    {
        if bytes.len() == 0 {
            return Tag::from_bytes(&[0, 0, 0, 0]);
        }
        let b0 = if bytes.len() > 0 { bytes[0] } else { 0x20 };
        let b1 = if bytes.len() > 1 { bytes[1] } else { 0x20 };
        let b2 = if bytes.len() > 2 { bytes[2] } else { 0x20 };
        let b3 = if bytes.len() > 3 { bytes[3] } else { 0x20 };
        Tag::from_bytes(&[b0, b1, b2, b3])
    }

    /// The four bytes of the tag, most significant first.
    pub fn to_bytes(self) -> (r: [u8; 4])
        ensures
            tag_value(r[0], r[1], r[2], r[3]) == self.0,
            r[0] == (self.0 >> 24u32) as u8,
            r[1] == ((self.0 >> 16u32) & 0xff) as u8,
            r[2] == ((self.0 >> 8u32) & 0xff) as u8,
            r[3] == (self.0 & 0xff) as u8,
    {
        let v = self.0;
        let r = [
            (v >> 24u32 & 0xff) as u8,
            (v >> 16u32 & 0xff) as u8,
            (v >> 8u32 & 0xff) as u8,
            (v & 0xff) as u8,
        ];
        assert(v >> 24u32 & 0xff == v >> 24u32) by (bit_vector);
        assert(((v >> 24u32 & 0xff) as u8) as u32 * 0x1000000 + ((v >> 16u32 & 0xff) as u8) as u32
            * 0x10000 + ((v >> 8u32 & 0xff) as u8) as u32 * 0x100 + ((v & 0xff) as u8) as u32 == v)
            by (bit_vector);
        r
    }

    /// The four bytes of the tag as characters, most significant first.
    pub fn to_chars(self) -> (r: [char; 4])
        ensures
            r[0] as u32 == (self.0 >> 24u32) as u8,
            r[1] as u32 == ((self.0 >> 16u32) & 0xff) as u8,
            r[2] as u32 == ((self.0 >> 8u32) & 0xff) as u8,
            r[3] as u32 == (self.0 & 0xff) as u8,
    {
        let b = self.to_bytes();
        [b[0] as char, b[1] as char, b[2] as char, b[3] as char]
    }

    /// Whether the tag is all zero bytes.
    pub fn is_null(&self) -> (r: bool)
        ensures
            r == (self.0 == 0),
    {
        self.0 == 0
    }

    /// The tag's number.
    pub fn as_u32(&self) -> (r: u32)
        ensures
            r == self.0,
    {
        self.0
    }
}

/// Byte `i` of `s`, or a space past its end.
pub open spec fn padded_byte(s: Seq<u8>, i: int) -> u8 {
    if i < s.len() {
        s[i]
    } else {
        0x20
    }
}

/// Spelling a tag's bytes back gives the tag, and spelling four bytes then
/// taking them apart gives the bytes.
pub proof fn lemma_tag_bytes_roundtrip(t: Tag, b0: u8, b1: u8, b2: u8, b3: u8)
    ensures
        tag_value(
            (t.0 >> 24u32) as u8,
            ((t.0 >> 16u32) & 0xff) as u8,
            ((t.0 >> 8u32) & 0xff) as u8,
            (t.0 & 0xff) as u8,
        ) == t.0,
        tag_value(b0, b1, b2, b3) <= u32::MAX,
        ({
            let v = tag_value(b0, b1, b2, b3) as u32;
            &&& (v >> 24u32) as u8 == b0
            &&& ((v >> 16u32) & 0xff) as u8 == b1
            &&& ((v >> 8u32) & 0xff) as u8 == b2
            &&& (v & 0xff) as u8 == b3
        }),
{
    let v = t.0;
    assert(((v >> 24u32) as u8) as u32 * 0x1000000 + (((v >> 16u32) & 0xff) as u8) as u32 * 0x10000
        + (((v >> 8u32) & 0xff) as u8) as u32 * 0x100 + ((v & 0xff) as u8) as u32 == v)
        by (bit_vector);
    assert(b0 as u32 * 0x1000000 + b1 as u32 * 0x10000 + b2 as u32 * 0x100 + b3 as u32 <= 0xFFFF_FFFFu32)
        by (bit_vector);
    let w: u32 = tag_value(b0, b1, b2, b3) as u32;
    assert((w >> 24u32) as u8 == b0 && ((w >> 16u32) & 0xff) as u8 == b1 && ((w >> 8u32) & 0xff) as u8
        == b2 && (w & 0xff) as u8 == b3) by (bit_vector)
        requires
            w == b0 as u32 * 0x1000000 + b1 as u32 * 0x10000 + b2 as u32 * 0x100 + b3 as u32,
    ;
}

/// The direction in which text is read.
#[derive(Clone, Copy, PartialEq, Eq, Hash, Debug, Structural)]
pub enum Direction {
    /// Initial, unset direction.
    Invalid,
    /// Set horizontally from left to right.
    LeftToRight,
    /// Set horizontally from right to left.
    RightToLeft,
    /// Set vertically from top to bottom.
    TopToBottom,
    /// Set vertically from bottom to top.
    BottomToTop,
}

/// The number of a direction in the C interface.
pub open spec fn direction_code(d: Direction) -> u32 {
    match d {
        Direction::Invalid => 0,
        Direction::LeftToRight => 4,
        Direction::RightToLeft => 5,
        Direction::TopToBottom => 6,
        Direction::BottomToTop => 7,
    }
}

/// The direction with number `n` in the C interface; other numbers are `Invalid`.
pub open spec fn direction_from_code(n: u32) -> Direction {
    if n == 4 {
        Direction::LeftToRight
    } else if n == 5 {
        Direction::RightToLeft
    } else if n == 6 {
        Direction::TopToBottom
    } else if n == 7 {
        Direction::BottomToTop
    } else {
        Direction::Invalid
    }
}

/// The direction named by the first letter of a word (`l`, `r`, `t`, `b`,
/// either case), as HarfBuzz reads it.
pub open spec fn direction_from_letter(c: u8) -> Option<Direction> {
    if c == 0x6C || c == 0x4C {
        Some(Direction::LeftToRight)
    } else if c == 0x72 || c == 0x52 {
        Some(Direction::RightToLeft)
    } else if c == 0x74 || c == 0x54 {
        Some(Direction::TopToBottom)
    } else if c == 0x62 || c == 0x42 {
        Some(Direction::BottomToTop)
    } else {
        None
    }
}

impl Direction {
    /// The direction's number in the C interface.
    pub fn to_raw(self) -> (r: u32)
        ensures
            r == direction_code(self),
    {
        match self {
            Direction::Invalid => 0,
            Direction::LeftToRight => 4,
            Direction::RightToLeft => 5,
            Direction::TopToBottom => 6,
            Direction::BottomToTop => 7,
        }
    }

    /// The direction with a number of the C interface; unknown numbers give `Invalid`.
    pub fn from_raw(dir: u32) -> (r: Direction)
        ensures
            r == direction_from_code(dir),
    {
        match dir {
            4 => Direction::LeftToRight,
            5 => Direction::RightToLeft,
            6 => Direction::TopToBottom,
            7 => Direction::BottomToTop,
            _ => Direction::Invalid,
        }
    }

    /// Reads a direction from a word: only its first letter counts.
    /// Returns `None` for the empty word and for any other first letter.
    pub fn from_str_bytes(s: &[u8]) -> (r: Option<Direction>)
        ensures
            s@.len() == 0 ==> r is None,
            s@.len() > 0 ==> r == direction_from_letter(s@[0]),
    {
        if s.len() == 0 {
            return None;
        }
        match s[0] {
            0x6C | 0x4C => Some(Direction::LeftToRight),
            0x72 | 0x52 => Some(Direction::RightToLeft),
            0x74 | 0x54 => Some(Direction::TopToBottom),
            0x62 | 0x42 => Some(Direction::BottomToTop),
            _ => None,
        }
    }
}

/// Going to the C number and back gives the direction again.
pub proof fn lemma_direction_raw_roundtrip(d: Direction)
    ensures
        direction_from_code(direction_code(d)) == d,
{
}

impl core::str::FromStr for Direction {
    type Err = &'static str;

    /// Reads a direction from the first letter of a text (see
    /// `Direction::from_str_bytes`).
    fn from_str(s: &str) -> (r: Result<Direction, &'static str>)
        ensures
            s.spec_bytes().len() == 0 ==> r == Err::<Direction, &'static str>("invalid direction"),
            s.spec_bytes().len() > 0 ==> match direction_from_letter(s.spec_bytes()[0]) {
                Some(d) => r == Ok::<Direction, &'static str>(d),
                None => r == Err::<Direction, &'static str>("invalid direction"),
            },
    {
        match Direction::from_str_bytes(s.as_bytes()) {
            Some(d) => Ok(d),
            None => Err("invalid direction"),
        }
    }
}

impl Default for Direction {
    fn default() -> (r: Direction)
        ensures
            r == Direction::Invalid,
    {
        Direction::Invalid
    }
}

/// A Unicode script, named by its ISO 15924 tag.
#[derive(Clone, Copy, PartialEq, Eq, Hash, Debug, Structural)]
pub struct Script(pub Tag);

/// A language, by its BCP 47 name.
#[derive(Debug)]
pub struct Language(pub String);

/// One end of a range of text positions.
#[derive(Clone, Copy, PartialEq, Eq, Debug, Structural)]
pub enum RangeBound {
    /// The end includes this position.
    Included(usize),
    /// The end stops short of this position.
    Excluded(usize),
    /// The range is open at this end.
    Unbounded,
}

/// A feature tag with the value it is set to and the inclusive range of
/// cluster positions on which it applies.
#[derive(Clone, Copy, PartialEq, Eq, Debug, Structural)]
pub struct Feature {
    pub tag: Tag,
    pub value: u32,
    pub start: u32,
    pub end: u32,
}

/// The first position of a range with lower end `b`, clamped to 32 bits.
pub open spec fn spec_range_start(b: RangeBound) -> u32 {
    match b {
        RangeBound::Included(i) => if i <= u32::MAX { i as u32 } else { u32::MAX },
        RangeBound::Excluded(e) => if e < u32::MAX { (e + 1) as u32 } else { u32::MAX },
        RangeBound::Unbounded => 0,
    }
}

/// The last position of a range with upper end `b`, clamped to 32 bits.
pub open spec fn spec_range_end(b: RangeBound) -> u32 {
    match b {
        RangeBound::Included(i) => if i <= u32::MAX { i as u32 } else { u32::MAX },
        RangeBound::Excluded(e) => if e == 0 {
            0
        } else if e - 1 <= u32::MAX {
            (e - 1) as u32
        } else {
            u32::MAX
        },
        RangeBound::Unbounded => u32::MAX,
    }
}

impl Feature {
    /// A feature `tag` set to `value` on the positions between `start` and `end`.
    pub fn new(tag: Tag, value: u32, start: RangeBound, end: RangeBound) -> (r: Feature)
        ensures
            r.tag == tag,
            r.value == value,
            r.start == spec_range_start(start),
            r.end == spec_range_end(end),
    {
        let max: u32 = u32::MAX;
        let s: u32 = match start {
            RangeBound::Included(i) => if i <= max as usize { i as u32 } else { max },
            RangeBound::Excluded(e) => if e < max as usize { (e + 1) as u32 } else { max },
            RangeBound::Unbounded => 0,
        };
        let e: u32 = match end {
            RangeBound::Included(i) => if i <= max as usize { i as u32 } else { max },
            RangeBound::Excluded(x) => {
                let y: usize = if x == 0 { 0 } else { x - 1 };
                if y <= max as usize { y as u32 } else { max }
            },
            RangeBound::Unbounded => max,
        };
        Feature { tag, value, start: s, end: e }
    }
}

} // verus!
