//! A cursor over the bytes of a short text, for reading feature settings.

use vstd::prelude::*;
use crate::common::{tag_value, padded_byte, Tag};
use vstd::string::StringSliceAdditionalSpecFns;

verus! {

/// Classes of bytes that the parser skips over.
#[derive(Clone, Copy, PartialEq, Eq, Debug, Structural)]
pub enum ByteClass {
    /// ASCII white space: space, tab, line feed, form feed, carriage return.
    Space,
    /// ASCII letters, digits and `_`: the bytes of a tag.
    TagChar,
    /// ASCII digits.
    Digit,
    /// ASCII letters.
    Alpha,
}

pub open spec fn is_ascii_digit(c: u8) -> bool {
    0x30 <= c <= 0x39
}

pub open spec fn is_ascii_alpha(c: u8) -> bool {
    (0x41 <= c <= 0x5A) || (0x61 <= c <= 0x7A)
}

/// Whether byte `c` is in class `k`.
pub open spec fn in_class(c: u8, k: ByteClass) -> bool {
    match k {
        ByteClass::Space => c == 0x20 || c == 0x09 || c == 0x0A || c == 0x0C || c == 0x0D,
        ByteClass::TagChar => is_ascii_alpha(c) || is_ascii_digit(c) || c == 0x5F,
        ByteClass::Digit => is_ascii_digit(c),
        ByteClass::Alpha => is_ascii_alpha(c),
    }
}

/// The first position at or after `p` that holds no byte of class `k`
/// (or the end of `s`).
pub open spec fn skip_class(s: Seq<u8>, p: int, k: ByteClass) -> int
    decreases s.len() - p,
{
    if p < 0 || p >= s.len() || !in_class(s[p], k) {
        p
    } else {
        skip_class(s, p + 1, k)
    }
}

pub proof fn lemma_skip_class_bounds(s: Seq<u8>, p: int, k: ByteClass)
    requires
        0 <= p <= s.len(),
    ensures
        p <= skip_class(s, p, k) <= s.len(),
        forall|i: int| p <= i < skip_class(s, p, k) ==> in_class(#[trigger] s[i], k),
        skip_class(s, p, k) < s.len() ==> !in_class(s[skip_class(s, p, k)], k),
    decreases s.len() - p,
{
    if p < s.len() && in_class(s[p], k) {
        lemma_skip_class_bounds(s, p + 1, k);
    }
}

/// The number spelled in decimal by the digits `s[a..b]`.
pub open spec fn digits_value(s: Seq<u8>, a: int, b: int) -> int
    decreases b - a,
{
    if b <= a {
        0
    } else {
        digits_value(s, a, b - 1) * 10 + (s[b - 1] - 0x30)
    }
}

pub proof fn lemma_digits_value_nonneg(s: Seq<u8>, a: int, b: int)
    requires
        0 <= a <= b <= s.len(),
        forall|i: int| a <= i < b ==> is_ascii_digit(#[trigger] s[i]),
    ensures
        digits_value(s, a, b) >= 0,
    decreases b - a,
{
    if b > a {
        lemma_digits_value_nonneg(s, a, b - 1);
    }
}

pub proof fn lemma_digits_value_mono(s: Seq<u8>, a: int, b: int)
    requires
        0 <= a < b <= s.len(),
        forall|i: int| a <= i < b ==> is_ascii_digit(#[trigger] s[i]),
    ensures
        digits_value(s, a, b) >= digits_value(s, a, b - 1),
{
    lemma_digits_value_nonneg(s, a, b - 1);
}

/// Where reading a signed decimal number from position `p` stops: after an
/// optional sign and the digits that follow.
pub open spec fn int_end(s: Seq<u8>, p: int) -> int {
    let p1 = if p < s.len() && (s[p] == 0x2D || s[p] == 0x2B) { p + 1 } else { p };
    skip_class(s, p1, ByteClass::Digit)
}

pub proof fn lemma_int_end_bounds(s: Seq<u8>, p: int)
    requires
        0 <= p <= s.len(),
    ensures
        p <= int_end(s, p) <= s.len(),
{
    let p1 = if p < s.len() && (s[p] == 0x2D || s[p] == 0x2B) { p + 1 } else { p };
    lemma_skip_class_bounds(s, p1, ByteClass::Digit);
}

/// The signed number read from position `p`, if the bytes read form one
/// (at least one digit) and it fits in an `i32`.
pub open spec fn int_value(s: Seq<u8>, p: int) -> Option<i32> {
    let signed = p < s.len() && (s[p] == 0x2D || s[p] == 0x2B);
    let p1 = if signed { p + 1 } else { p };
    let q = skip_class(s, p1, ByteClass::Digit);
    let mag = digits_value(s, p1, q);
    let v = if signed && s[p] == 0x2D { -mag } else { mag };
    if q > p1 && i32::MIN <= v <= i32::MAX {
        Some(v as i32)
    } else {
        None
    }
}

/// ASCII lower case of a byte.
pub open spec fn lower(c: u8) -> u8 {
    if 0x41 <= c <= 0x5A { (c + 0x20) as u8 } else { c }
}

/// The boolean spelled by the word `s[a..b]`: `on` or `off` in any case.
pub open spec fn bool_word(s: Seq<u8>, a: int, b: int) -> Option<bool> {
    if b - a == 2 && lower(s[a]) == 0x6F && lower(s[a + 1]) == 0x6E {
        Some(true)
    } else if b - a == 3 && lower(s[a]) == 0x6F && lower(s[a + 1]) == 0x66 && lower(s[a + 2]) == 0x66 {
        Some(false)
    } else {
        None
    }
}

/// The tag spelled by the bytes `s[a..b]`, padded with spaces.
pub open spec fn tag_of(s: Seq<u8>, a: int, b: int) -> Tag {
    let t = s.subrange(a, b);
    if t.len() == 0 {
        Tag(0)
    } else {
        Tag(tag_value(padded_byte(t, 0), padded_byte(t, 1), padded_byte(t, 2), padded_byte(t, 3)) as u32)
    }
}

/// A cursor over a text.
pub struct TextParser<'a> {
    pub text: &'a [u8],
    pub pos: usize,
}

impl<'a> TextParser<'a> {
    /// A cursor at the start of `text`.
    pub fn new(text: &'a [u8]) -> (r: TextParser<'a>)
        ensures
            r.text@ == text@,
            r.pos == 0,
    {
        TextParser { text, pos: 0 }
    }

    /// Whether the cursor has reached the end of the text.
    pub fn at_end(&self) -> (r: bool)
        ensures
            r == (self.pos >= self.text@.len()),
    {
        self.pos >= self.text.len()
    }

    /// The byte under the cursor.
    pub fn curr_byte(&self) -> (r: Option<u8>)
        ensures
            self.pos < self.text@.len() ==> r == Some(self.text@[self.pos as int]),
            self.pos >= self.text@.len() ==> r is None,
    {
        if self.pos < self.text.len() {
            Some(self.text[self.pos])
        } else {
            None
        }
    }

    /// Moves the cursor `n` bytes forward.
    pub fn advance(&mut self, n: usize)
        requires
            old(self).pos + n <= old(self).text@.len(),
        ensures
            final(self).pos == old(self).pos + n,
            final(self).text == old(self).text,
    {
        let l = self.text.len();
        assert(l == self.text@.len());
        self.pos = self.pos + n;
    }

    /// Moves over byte `c` if it is under the cursor.
    pub fn consume_byte(&mut self, c: u8) -> (r: Option<()>)
        requires
            old(self).pos <= old(self).text@.len(),
        ensures
            final(self).text == old(self).text,
            (old(self).pos < old(self).text@.len() && old(self).text@[old(self).pos as int] == c)
                ==> r is Some && final(self).pos == old(self).pos + 1,
            !(old(self).pos < old(self).text@.len() && old(self).text@[old(self).pos as int] == c)
                ==> r is None && final(self).pos == old(self).pos,
    {
        if self.pos < self.text.len() && self.text[self.pos] == c {
            self.pos = self.pos + 1;
            Some(())
        } else {
            None
        }
    }

    /// Moves over the bytes of class `k` under the cursor.
    pub fn skip_class(&mut self, k: ByteClass)
        requires
            old(self).pos <= old(self).text@.len(),
        ensures
            final(self).text == old(self).text,
            final(self).pos == skip_class(old(self).text@, old(self).pos as int, k),
    {
        proof { lemma_skip_class_bounds(self.text@, self.pos as int, k); }
        let ghost start = self.pos as int;
        let ghost t = self.text;
        while self.pos < self.text.len() && byte_in_class(self.text[self.pos], k)
            invariant
                self.text == t,
                start <= self.pos <= self.text@.len(),
                skip_class(self.text@, start, k) == skip_class(self.text@, self.pos as int, k),
            decreases self.text@.len() - self.pos,
        {
            self.pos = self.pos + 1;
        }
    }

    /// Moves over white space.
    pub fn skip_spaces(&mut self)
        requires
            old(self).pos <= old(self).text@.len(),
        ensures
            final(self).text == old(self).text,
            final(self).pos == skip_class(old(self).text@, old(self).pos as int, ByteClass::Space),
    {
        self.skip_class(ByteClass::Space);
    }

    /// Moves over a quote (`'` or `"`) under the cursor and returns it.
    pub fn consume_quote(&mut self) -> (r: Option<u8>)
        requires
            old(self).pos <= old(self).text@.len(),
        ensures
            final(self).text == old(self).text,
            ({
                let s = old(self).text@;
                let p = old(self).pos as int;
                if p < s.len() && (s[p] == 0x27 || s[p] == 0x22) {
                    r == Some(s[p]) && final(self).pos == p + 1
                } else {
                    r is None && final(self).pos == p
                }
            }),
    {
        if self.pos < self.text.len() {
            let c = self.text[self.pos];
            if c == 0x27 || c == 0x22 {
                self.pos = self.pos + 1;
                return Some(c);
            }
        }
        None
    }

    /// Reads a tag: the letters, digits and `_` under the cursor, at most
    /// four of them (more is an error; the cursor still moves over them).
    pub fn consume_tag(&mut self) -> (r: Option<Tag>)
        requires
            old(self).pos <= old(self).text@.len(),
        ensures
            final(self).text == old(self).text,
            ({
                let s = old(self).text@;
                let p = old(self).pos as int;
                let q = skip_class(s, p, ByteClass::TagChar);
                &&& final(self).pos == q
                &&& q - p > 4 ==> r is None
                &&& q - p <= 4 ==> r == Some(tag_of(s, p, q))
            }),
    {
        let start = self.pos;
        self.skip_class(ByteClass::TagChar);
        proof { lemma_skip_class_bounds(self.text@, start as int, ByteClass::TagChar); }
        if self.pos - start > 4 {
            return None;
        }
        let n = self.pos - start;
        let b0 = if n > 0 { self.text[start] } else { 0 };
        let b1 = if n > 1 { self.text[start + 1] } else { 0x20 };
        let b2 = if n > 2 { self.text[start + 2] } else { 0x20 };
        let b3 = if n > 3 { self.text[start + 3] } else { 0x20 };
        if n == 0 {
            return Some(Tag(0));
        }
        let t = Tag::from_bytes(&[b0, b1, b2, b3]);
        Some(t)
    }

    /// Reads a signed decimal number; the cursor moves over the sign and
    /// the digits even when they do not form a number that fits in an `i32`.
    pub fn consume_i32(&mut self) -> (r: Option<i32>)
        requires
            old(self).pos <= old(self).text@.len(),
        ensures
            final(self).text == old(self).text,
            final(self).pos == int_end(old(self).text@, old(self).pos as int),
            r == int_value(old(self).text@, old(self).pos as int),
    {
        let ghost s = self.text@;
        let start = self.pos;
        let mut negative = false;
        let mut signed = false;
        if self.pos < self.text.len() && (self.text[self.pos] == 0x2D || self.text[self.pos] == 0x2B) {
            negative = self.text[self.pos] == 0x2D;
            signed = true;
            self.pos = self.pos + 1;
        }
        let p1 = self.pos;
        proof { lemma_skip_class_bounds(s, p1 as int, ByteClass::Digit); }
        let ghost q = skip_class(s, p1 as int, ByteClass::Digit);
        // The magnitude, kept exact while it does not pass 2^31.
        let mut mag: u64 = 0;
        let mut big = false;
        let ghost t = self.text;
        while self.pos < self.text.len() && byte_in_class(self.text[self.pos], ByteClass::Digit)
            invariant
                self.text == t,
                self.text@ == s,
                p1 <= self.pos <= q,
                q == skip_class(s, p1 as int, ByteClass::Digit),
                q <= s.len(),
                forall|i: int| p1 <= i < q ==> is_ascii_digit(#[trigger] s[i]),
                q < s.len() ==> !is_ascii_digit(s[q]),
                !big ==> mag == digits_value(s, p1 as int, self.pos as int),
                !big ==> mag <= 0x8000_0000,
                big ==> digits_value(s, p1 as int, self.pos as int) > 0x8000_0000,
            decreases s.len() - self.pos,
        {
            let d = (self.text[self.pos] - 0x30) as u64;
            proof {
                lemma_digits_value_mono(s, p1 as int, self.pos + 1);
                lemma_digits_value_nonneg(s, p1 as int, self.pos as int);
            }
            if !big {
                let m = mag * 10 + d;
                if m > 0x8000_0000 {
                    big = true;
                } else {
                    mag = m;
                }
            }
            self.pos = self.pos + 1;
        }
        if self.pos == p1 || big {
            return None;
        }
        if negative {
            Some((0 - (mag as i64)) as i32)
        } else if mag <= 0x7FFF_FFFF {
            Some(mag as i32)
        } else {
            None
        }
    }

    /// Reads `on` or `off` (any case) after optional white space; the
    /// cursor moves over the white space and all the letters that follow.
    pub fn consume_bool(&mut self) -> (r: Option<bool>)
        requires
            old(self).pos <= old(self).text@.len(),
        ensures
            final(self).text == old(self).text,
            ({
                let s = old(self).text@;
                let a = skip_class(s, old(self).pos as int, ByteClass::Space);
                let b = skip_class(s, a, ByteClass::Alpha);
                &&& final(self).pos == b
                &&& r == bool_word(s, a, b)
            }),
    {
        self.skip_spaces();
        proof { lemma_skip_class_bounds(self.text@, old(self).pos as int, ByteClass::Space); }
        let a = self.pos;
        self.skip_class(ByteClass::Alpha);
        proof { lemma_skip_class_bounds(self.text@, a as int, ByteClass::Alpha); }
        let b = self.pos;
        if b - a == 2 && lower_byte(self.text[a]) == 0x6F && lower_byte(self.text[a + 1]) == 0x6E {
            Some(true)
        } else if b - a == 3 && lower_byte(self.text[a]) == 0x6F && lower_byte(self.text[a + 1])
            == 0x66 && lower_byte(self.text[a + 2]) == 0x66 {
            Some(false)
        } else {
            None
        }
    }
}

/// Whether byte `c` is in class `k`.
pub fn byte_in_class(c: u8, k: ByteClass) -> (r: bool)
    ensures
        r == in_class(c, k),
{
    match k {
        ByteClass::Space => c == 0x20 || c == 0x09 || c == 0x0A || c == 0x0C || c == 0x0D,
        ByteClass::TagChar => (0x41 <= c && c <= 0x5A) || (0x61 <= c && c <= 0x7A) || (0x30 <= c
            && c <= 0x39) || c == 0x5F,
        ByteClass::Digit => 0x30 <= c && c <= 0x39,
        ByteClass::Alpha => (0x41 <= c && c <= 0x5A) || (0x61 <= c && c <= 0x7A),
    }
}

/// ASCII lower case of a byte.
pub fn lower_byte(c: u8) -> (r: u8)
    ensures
        r == lower(c),
{
    if 0x41 <= c && c <= 0x5A {
        c + 0x20
    } else {
        c
    }
}

} // verus!

verus! {

/// The range part of a feature setting at position `p`: `[start:end]`,
/// `[start]`, `[]` or nothing. Gives the first and last position and where
/// the range part ends, or `None` when a `[` is not closed.
pub open spec fn spec_parse_range(s: Seq<u8>, p: int) -> Option<(u32, u32, int)> {
    if p < s.len() && s[p] == 0x5B {
        let p6 = p + 1;
        let start_opt = int_value(s, p6);
        let start: u32 = match start_opt {
            Some(v) => v as u32,
            None => 0u32,
        };
        let p7 = int_end(s, p6);
        let colon = p7 < s.len() && (s[p7] == 0x3A || s[p7] == 0x3B);
        let end: u32 = if colon {
            match int_value(s, p7 + 1) {
                Some(v) => v as u32,
                None => u32::MAX,
            }
        } else if start_opt is Some && start != u32::MAX {
            (start + 1) as u32
        } else {
            u32::MAX
        };
        let p9 = if colon { int_end(s, p7 + 1) } else { p7 };
        if p9 < s.len() && s[p9] == 0x5D {
            Some((start, end, p9 + 1))
        } else {
            None
        }
    } else {
        Some((0u32, u32::MAX, p))
    }
}

/// The value part of a feature setting at position `p`: an optional `=`
/// then a number or `on`/`off`. Gives the value read (if any), whether there
/// was an `=`, and where the part ends.
pub open spec fn spec_parse_value(s: Seq<u8>, p: int) -> (Option<i32>, bool, int) {
    let had_equal = p < s.len() && s[p] == 0x3D;
    let p11 = if had_equal { p + 1 } else { p };
    let iv = int_value(s, p11);
    let p12 = int_end(s, p11);
    let a = skip_class(s, p12, ByteClass::Space);
    let b = skip_class(s, a, ByteClass::Alpha);
    let v1 = match iv {
        Some(v) => Some(v),
        None => match bool_word(s, a, b) {
            Some(t) => Some(if t { 1i32 } else { 0i32 }),
            None => None,
        },
    };
    (v1, had_equal, b)
}

/// The feature setting that the text `s` spells, HarfBuzz's syntax:
/// an optional `+` or `-`, a tag of up to four letters, digits or `_`
/// (optionally quoted), an optional range in brackets, and an optional
/// value (`=` then a number, `on` or `off`), with white space allowed
/// between the parts.
pub open spec fn spec_parse_feature(s: Seq<u8>) -> Option<crate::common::Feature> {
    if s.len() == 0 {
        None
    } else {
        let value0: u32 = if s[0] == 0x2D { 0 } else { 1 };
        let p0: int = if s[0] == 0x2D || s[0] == 0x2B { 1 } else { 0 };
        let p1 = skip_class(s, p0, ByteClass::Space);
        let has_quote = p1 < s.len() && (s[p1] == 0x27 || s[p1] == 0x22);
        let p2 = if has_quote { p1 + 1 } else { p1 };
        let p3 = skip_class(s, p2, ByteClass::TagChar);
        if p3 - p2 > 4 {
            None
        } else if has_quote && !(p3 < s.len() && s[p3] == s[p1]) {
            None
        } else {
            let p4 = if has_quote { p3 + 1 } else { p3 };
            let p5 = skip_class(s, p4, ByteClass::Space);
            match spec_parse_range(s, p5) {
                None => None,
                Some((start, end, p10)) => {
                    let (v1, had_equal, b) = spec_parse_value(s, p10);
                    if had_equal && v1 is None {
                        None
                    } else if skip_class(s, b, ByteClass::Space) < s.len() {
                        None
                    } else {
                        let value: u32 = match v1 {
                            Some(v) => v as u32,
                            None => value0,
                        };
                        Some(crate::common::Feature { tag: tag_of(s, p2, p3), value, start, end })
                    }
                },
            }
        }
    }
}

impl crate::common::Feature {
    /// Reads a feature setting from text, HarfBuzz's syntax:
    ///
    /// - `kern`, `+kern` → `kern` on every position, value 1
    /// - `-kern`, `kern=0`, `kern=off` → value 0
    /// - `kern=2` → value 2
    /// - `kern[5:]` → from position 5; `kern[:5]` → up to position 5;
    ///   `kern[3:5]` → positions 3 to 5; `kern[3]` → positions 3 to 4.
    ///
    /// Returns `None` when the text is not a feature setting.
    pub fn parse(s: &str) -> (r: Option<crate::common::Feature>)
        ensures
            r == spec_parse_feature(s.spec_bytes()),
    {
        let bytes = s.as_bytes();
        Self::parse_bytes(bytes)
    }

    /// Reads a feature setting from the bytes of a text (see `parse`).
    pub fn parse_bytes(bytes: &[u8]) -> (r: Option<crate::common::Feature>)
        ensures
            r == spec_parse_feature(bytes@),
    {
        let ghost s = bytes@;
        if bytes.len() == 0 {
            return None;
        }
        let mut p = TextParser::new(bytes);
        let mut value: u32 = 1;
        if bytes[0] == 0x2D {
            value = 0;
            p.advance(1);
        } else if bytes[0] == 0x2B {
            value = 1;
            p.advance(1);
        }
        proof { lemma_skip_class_bounds(s, p.pos as int, ByteClass::Space); }
        p.skip_spaces();
        let quote = p.consume_quote();
        let ghost p2 = p.pos as int;
        proof { lemma_skip_class_bounds(s, p2, ByteClass::TagChar); }
        let tag = match p.consume_tag() {
            Some(t) => t,
            None => return None,
        };
        match quote {
            Some(q) => {
                if p.consume_byte(q).is_none() {
                    return None;
                }
            },
            None => {},
        }
        proof { lemma_skip_class_bounds(s, p.pos as int, ByteClass::Space); }
        p.skip_spaces();
        let (start, end) = match parse_range_part(&mut p) {
            Some(r) => r,
            None => return None,
        };
        let (value1, had_equal) = parse_value_part(&mut p);
        if had_equal && value1.is_none() {
            return None;
        }
        match value1 {
            Some(v) => {
                value = #[verifier::truncate] (v as u32);
            },
            None => {},
        }
        p.skip_spaces();
        if !p.at_end() {
            return None;
        }
        Some(crate::common::Feature { tag, value, start, end })
    }
}

/// Reads the range part of a feature setting (see `spec_parse_range`).
fn parse_range_part(p: &mut TextParser) -> (r: Option<(u32, u32)>)
    requires
        old(p).pos <= old(p).text@.len(),
    ensures
        final(p).text == old(p).text,
        final(p).pos <= final(p).text@.len(),
        ({
            let sp = spec_parse_range(old(p).text@, old(p).pos as int);
            &&& sp is None <==> r is None
            &&& r matches Some((a, b)) ==> sp == Some((a, b, final(p).pos as int))
        }),
{
    let ghost s = p.text@;
    let mut start: u32 = 0;
    let mut end: u32 = u32::MAX;
    if p.consume_byte(0x5B).is_some() {
        proof { lemma_int_end_bounds(s, p.pos as int); }
        let start_opt = p.consume_i32();
        start = match start_opt {
            Some(v) => #[verifier::truncate] (v as u32),
            None => 0,
        };
        let c = p.curr_byte();
        if c == Some(0x3Au8) || c == Some(0x3Bu8) {
            p.advance(1);
            proof { lemma_int_end_bounds(s, p.pos as int); }
            end = match p.consume_i32() {
                Some(v) => #[verifier::truncate] (v as u32),
                None => u32::MAX,
            };
        } else {
            end = if start_opt.is_some() && start != u32::MAX {
                start + 1
            } else {
                u32::MAX
            };
        }
        if p.consume_byte(0x5D).is_none() {
            return None;
        }
    }
    Some((start, end))
}

/// Reads the value part of a feature setting (see `spec_parse_value`):
/// the value read, if any, and whether there was an `=`.
fn parse_value_part(p: &mut TextParser) -> (r: (Option<i32>, bool))
    requires
        old(p).pos <= old(p).text@.len(),
    ensures
        final(p).text == old(p).text,
        final(p).pos <= final(p).text@.len(),
        ({
            let sp = spec_parse_value(old(p).text@, old(p).pos as int);
            &&& sp.0 == r.0
            &&& sp.1 == r.1
            &&& sp.2 == final(p).pos as int
        }),
{
    let ghost s = p.text@;
    let had_equal = p.consume_byte(0x3D).is_some();
    proof { lemma_int_end_bounds(s, p.pos as int); }
    let ghost p12 = int_end(s, p.pos as int);
    let iv = p.consume_i32();
    proof {
        lemma_skip_class_bounds(s, p12, ByteClass::Space);
        lemma_skip_class_bounds(s, skip_class(s, p12, ByteClass::Space), ByteClass::Alpha);
    }
    let bv = p.consume_bool();
    let value1: Option<i32> = match iv {
        Some(v) => Some(v),
        None => match bv {
            Some(t) => Some(if t { 1i32 } else { 0i32 }),
            None => None,
        },
    };
    (value1, had_equal)
}

impl core::str::FromStr for crate::common::Feature {
    type Err = &'static str;

    /// Reads a feature setting from text (see `Feature::parse`).
    fn from_str(s: &str) -> (r: Result<crate::common::Feature, &'static str>)
        ensures
            match spec_parse_feature(s.spec_bytes()) {
                Some(f) => r == Ok::<crate::common::Feature, &'static str>(f),
                None => r == Err::<crate::common::Feature, &'static str>("invalid feature"),
            },
    {
        match crate::common::Feature::parse(s) {
            Some(f) => Ok(f),
            None => Err("invalid feature"),
        }
    }
}

} // verus!
