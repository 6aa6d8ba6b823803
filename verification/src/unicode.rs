//! Unicode character properties, in the numbering that the glyph records
//! store them in.

use vstd::prelude::*;

verus! {

/// A Unicode general category.
#[derive(Clone, Copy, PartialEq, Eq, Debug, Structural)]
pub enum GeneralCategory {
    Control,
    Format,
    Unassigned,
    PrivateUse,
    Surrogate,
    LowercaseLetter,
    ModifierLetter,
    OtherLetter,
    TitlecaseLetter,
    UppercaseLetter,
    SpacingMark,
    EnclosingMark,
    NonspacingMark,
    DecimalNumber,
    LetterNumber,
    OtherNumber,
    ConnectPunctuation,
    DashPunctuation,
    ClosePunctuation,
    FinalPunctuation,
    InitialPunctuation,
    OtherPunctuation,
    OpenPunctuation,
    CurrencySymbol,
    ModifierSymbol,
    MathSymbol,
    OtherSymbol,
    LineSeparator,
    ParagraphSeparator,
    SpaceSeparator,
}

/// The number of a general category in the 5-bit field of the unicode
/// properties of a glyph record.
pub open spec fn gc_code(gc: GeneralCategory) -> u32 {
    match gc {
        GeneralCategory::Control => 0,
        GeneralCategory::Format => 1,
        GeneralCategory::Unassigned => 2,
        GeneralCategory::PrivateUse => 3,
        GeneralCategory::Surrogate => 4,
        GeneralCategory::LowercaseLetter => 5,
        GeneralCategory::ModifierLetter => 6,
        GeneralCategory::OtherLetter => 7,
        GeneralCategory::TitlecaseLetter => 8,
        GeneralCategory::UppercaseLetter => 9,
        GeneralCategory::SpacingMark => 10,
        GeneralCategory::EnclosingMark => 11,
        GeneralCategory::NonspacingMark => 12,
        GeneralCategory::DecimalNumber => 13,
        GeneralCategory::LetterNumber => 14,
        GeneralCategory::OtherNumber => 15,
        GeneralCategory::ConnectPunctuation => 16,
        GeneralCategory::DashPunctuation => 17,
        GeneralCategory::ClosePunctuation => 18,
        GeneralCategory::FinalPunctuation => 19,
        GeneralCategory::InitialPunctuation => 20,
        GeneralCategory::OtherPunctuation => 21,
        GeneralCategory::OpenPunctuation => 22,
        GeneralCategory::CurrencySymbol => 23,
        GeneralCategory::ModifierSymbol => 24,
        GeneralCategory::MathSymbol => 25,
        GeneralCategory::OtherSymbol => 26,
        GeneralCategory::LineSeparator => 27,
        GeneralCategory::ParagraphSeparator => 28,
        GeneralCategory::SpaceSeparator => 29,
    }
}

/// The general category numbered `n`; numbers that name none read as
/// `Unassigned`.
pub open spec fn gc_from_code(n: u32) -> GeneralCategory {
    if n == 0 { GeneralCategory::Control }
    else if n == 1 { GeneralCategory::Format }
    else if n == 3 { GeneralCategory::PrivateUse }
    else if n == 4 { GeneralCategory::Surrogate }
    else if n == 5 { GeneralCategory::LowercaseLetter }
    else if n == 6 { GeneralCategory::ModifierLetter }
    else if n == 7 { GeneralCategory::OtherLetter }
    else if n == 8 { GeneralCategory::TitlecaseLetter }
    else if n == 9 { GeneralCategory::UppercaseLetter }
    else if n == 10 { GeneralCategory::SpacingMark }
    else if n == 11 { GeneralCategory::EnclosingMark }
    else if n == 12 { GeneralCategory::NonspacingMark }
    else if n == 13 { GeneralCategory::DecimalNumber }
    else if n == 14 { GeneralCategory::LetterNumber }
    else if n == 15 { GeneralCategory::OtherNumber }
    else if n == 16 { GeneralCategory::ConnectPunctuation }
    else if n == 17 { GeneralCategory::DashPunctuation }
    else if n == 18 { GeneralCategory::ClosePunctuation }
    else if n == 19 { GeneralCategory::FinalPunctuation }
    else if n == 20 { GeneralCategory::InitialPunctuation }
    else if n == 21 { GeneralCategory::OtherPunctuation }
    else if n == 22 { GeneralCategory::OpenPunctuation }
    else if n == 23 { GeneralCategory::CurrencySymbol }
    else if n == 24 { GeneralCategory::ModifierSymbol }
    else if n == 25 { GeneralCategory::MathSymbol }
    else if n == 26 { GeneralCategory::OtherSymbol }
    else if n == 27 { GeneralCategory::LineSeparator }
    else if n == 28 { GeneralCategory::ParagraphSeparator }
    else if n == 29 { GeneralCategory::SpaceSeparator }
    else { GeneralCategory::Unassigned }
}

/// Whether a general category is one of the three mark categories.
pub open spec fn gc_is_mark(gc: GeneralCategory) -> bool {
    gc == GeneralCategory::SpacingMark || gc == GeneralCategory::EnclosingMark
        || gc == GeneralCategory::NonspacingMark
}

/// Numbering and reading back a category gives the category again.
pub proof fn lemma_gc_code_roundtrip(gc: GeneralCategory)
    ensures
        gc_from_code(gc_code(gc)) == gc,
        gc_code(gc) < 30,
{
}

impl GeneralCategory {
    /// The number of the category in a glyph record.
    pub fn to_rb(self) -> (r: u32)
        ensures
            r == gc_code(self),
    {
        match self {
            GeneralCategory::Control => 0,
            GeneralCategory::Format => 1,
            GeneralCategory::Unassigned => 2,
            GeneralCategory::PrivateUse => 3,
            GeneralCategory::Surrogate => 4,
            GeneralCategory::LowercaseLetter => 5,
            GeneralCategory::ModifierLetter => 6,
            GeneralCategory::OtherLetter => 7,
            GeneralCategory::TitlecaseLetter => 8,
            GeneralCategory::UppercaseLetter => 9,
            GeneralCategory::SpacingMark => 10,
            GeneralCategory::EnclosingMark => 11,
            GeneralCategory::NonspacingMark => 12,
            GeneralCategory::DecimalNumber => 13,
            GeneralCategory::LetterNumber => 14,
            GeneralCategory::OtherNumber => 15,
            GeneralCategory::ConnectPunctuation => 16,
            GeneralCategory::DashPunctuation => 17,
            GeneralCategory::ClosePunctuation => 18,
            GeneralCategory::FinalPunctuation => 19,
            GeneralCategory::InitialPunctuation => 20,
            GeneralCategory::OtherPunctuation => 21,
            GeneralCategory::OpenPunctuation => 22,
            GeneralCategory::CurrencySymbol => 23,
            GeneralCategory::ModifierSymbol => 24,
            GeneralCategory::MathSymbol => 25,
            GeneralCategory::OtherSymbol => 26,
            GeneralCategory::LineSeparator => 27,
            GeneralCategory::ParagraphSeparator => 28,
            GeneralCategory::SpaceSeparator => 29,
        }
    }

    /// The category numbered `n` in a glyph record.
    pub fn from_rb(n: u32) -> (r: GeneralCategory)
        ensures
            r == gc_from_code(n),
    {
        match n {
            0 => GeneralCategory::Control,
            1 => GeneralCategory::Format,
            3 => GeneralCategory::PrivateUse,
            4 => GeneralCategory::Surrogate,
            5 => GeneralCategory::LowercaseLetter,
            6 => GeneralCategory::ModifierLetter,
            7 => GeneralCategory::OtherLetter,
            8 => GeneralCategory::TitlecaseLetter,
            9 => GeneralCategory::UppercaseLetter,
            10 => GeneralCategory::SpacingMark,
            11 => GeneralCategory::EnclosingMark,
            12 => GeneralCategory::NonspacingMark,
            13 => GeneralCategory::DecimalNumber,
            14 => GeneralCategory::LetterNumber,
            15 => GeneralCategory::OtherNumber,
            16 => GeneralCategory::ConnectPunctuation,
            17 => GeneralCategory::DashPunctuation,
            18 => GeneralCategory::ClosePunctuation,
            19 => GeneralCategory::FinalPunctuation,
            20 => GeneralCategory::InitialPunctuation,
            21 => GeneralCategory::OtherPunctuation,
            22 => GeneralCategory::OpenPunctuation,
            23 => GeneralCategory::CurrencySymbol,
            24 => GeneralCategory::ModifierSymbol,
            25 => GeneralCategory::MathSymbol,
            26 => GeneralCategory::OtherSymbol,
            27 => GeneralCategory::LineSeparator,
            28 => GeneralCategory::ParagraphSeparator,
            29 => GeneralCategory::SpaceSeparator,
            _ => GeneralCategory::Unassigned,
        }
    }

    /// Whether the category is a mark (spacing, enclosing or non-spacing).
    pub fn is_mark(self) -> (r: bool)
        ensures
            r == gc_is_mark(self),
    {
        match self {
            GeneralCategory::SpacingMark | GeneralCategory::EnclosingMark
            | GeneralCategory::NonspacingMark => true,
            _ => false,
        }
    }
}

/// The default-ignorable code points: those that render as nothing when a
/// font has no glyph for them.
pub open spec fn spec_is_default_ignorable(cp: u32) -> bool {
    ||| cp == 0x00AD
    ||| cp == 0x034F
    ||| cp == 0x061C
    ||| 0x17B4 <= cp <= 0x17B5
    ||| 0x180B <= cp <= 0x180E
    ||| 0x200B <= cp <= 0x200F
    ||| 0x202A <= cp <= 0x202E
    ||| 0x2060 <= cp <= 0x206F
    ||| 0xFE00 <= cp <= 0xFE0F
    ||| cp == 0xFEFF
    ||| 0xFFF0 <= cp <= 0xFFF8
    ||| 0x1D173 <= cp <= 0x1D17A
    ||| 0xE0000 <= cp <= 0xE0FFF
}

/// Whether `cp` is a default-ignorable code point.
pub fn is_default_ignorable(cp: u32) -> (r: bool)
    ensures
        r == spec_is_default_ignorable(cp),
{
    cp == 0x00AD || cp == 0x034F || cp == 0x061C
        || (0x17B4 <= cp && cp <= 0x17B5)
        || (0x180B <= cp && cp <= 0x180E)
        || (0x200B <= cp && cp <= 0x200F)
        || (0x202A <= cp && cp <= 0x202E)
        || (0x2060 <= cp && cp <= 0x206F)
        || (0xFE00 <= cp && cp <= 0xFE0F)
        || cp == 0xFEFF
        || (0xFFF0 <= cp && cp <= 0xFFF8)
        || (0x1D173 <= cp && cp <= 0x1D17A)
        || (0xE0000 <= cp && cp <= 0xE0FFF)
}

} // verus!
