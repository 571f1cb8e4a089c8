//! Flags and named values used by annotations.
use vstd::prelude::*;

use crate::objects::pdf_string::PdfStringObject;
use crate::strbuf::owned;

verus! {

/// Annotation flags (the /F entry), a set of bits.
#[derive(Debug, Clone, Copy, PartialEq, Eq, Structural)]
pub struct AnnotationFlags(pub u32);

impl AnnotationFlags {
    /// No flags.
    pub fn none() -> (f: Self)
        ensures
            f.0 == 0u32,
    {
        Self(0)
    }

    /// Bit 1: do not show an unknown annotation type.
    pub fn invisible() -> (f: Self)
        ensures
            f.0 == 1u32,
    {
        Self(1)
    }

    /// Bit 2: do not show or print.
    pub fn hidden() -> (f: Self)
        ensures
            f.0 == 2u32,
    {
        Self(2)
    }

    /// Bit 3: print the annotation.
    pub fn print() -> (f: Self)
        ensures
            f.0 == 4u32,
    {
        Self(4)
    }

    /// Bit 4: do not scale with the page.
    pub fn no_zoom() -> (f: Self)
        ensures
            f.0 == 8u32,
    {
        Self(8)
    }

    /// Bit 5: do not rotate with the page.
    pub fn no_rotate() -> (f: Self)
        ensures
            f.0 == 16u32,
    {
        Self(16)
    }

    /// Bit 6: do not show on screen.
    pub fn no_view() -> (f: Self)
        ensures
            f.0 == 32u32,
    {
        Self(32)
    }

    /// Bit 7: no interaction.
    pub fn read_only() -> (f: Self)
        ensures
            f.0 == 64u32,
    {
        Self(64)
    }

    /// Bit 8: cannot be deleted or changed.
    pub fn locked() -> (f: Self)
        ensures
            f.0 == 128u32,
    {
        Self(128)
    }

    pub fn from_bits(bits: u32) -> (f: Self)
        ensures
            f.0 == bits,
    {
        Self(bits)
    }

    pub fn bits(&self) -> (b: u32)
        ensures
            b == self.0,
    {
        self.0
    }

    pub fn is_empty(&self) -> (b: bool)
        ensures
            b == (self.0 == 0),
    {
        self.bits() == 0
    }

    /// The union of two flag sets.
    pub fn or(self, other: Self) -> (f: Self)
        ensures
            f.0 == self.0 | other.0,
    {
        Self(self.0 | other.0)
    }
}

/// The union of flag sets is commutative, associative and idempotent, has the empty set
/// as identity, and a flag is in the union exactly when it is in either set.
pub proof fn lemma_flags_or_laws(a: u32, b: u32, c: u32, bit: u32)
    requires
        bit < 32,
    ensures
        a | b == b | a,
        (a | b) | c == a | (b | c),
        a | a == a,
        a | 0 == a,
        ((a | b) & (1u32 << bit) != 0) == ((a & (1u32 << bit) != 0) || (b & (1u32 << bit) != 0)),
{
    assert(a | b == b | a) by (bit_vector);
    assert((a | b) | c == a | (b | c)) by (bit_vector);
    assert(a | a == a) by (bit_vector);
    assert(a | 0 == a) by (bit_vector);
    assert(((a | b) & (1u32 << bit) != 0) == ((a & (1u32 << bit) != 0) || (b & (1u32 << bit) != 0))) by (bit_vector);
}

//------------------- Intent ----------------------//

pub enum Intent {
    LineArrow,
    LineDimension,
}

impl Intent {
    pub fn to_string(&self) -> (s: String)
        ensures
            s@ == (match *self {
                Intent::LineArrow => "LineArrow"@,
                Intent::LineDimension => "LineDimension"@,
            }),
    {
        match self {
            Intent::LineArrow => owned("LineArrow"),
            Intent::LineDimension => owned("LineDimension"),
        }
    }
}

//------------------- CaptionPosition ----------------------//

pub enum CaptionPosition {
    NoIcon,
    NoCaption,
    Below,
    Above,
    Left,
    Right,
    Center,
}

impl CaptionPosition {
    /// The digit of the /TP entry: 0 for `NoIcon` through 6 for `Center`.
    pub fn to_string(&self) -> (s: String)
        ensures
            s@ == (match *self {
                CaptionPosition::NoIcon => "0"@,
                CaptionPosition::NoCaption => "1"@,
                CaptionPosition::Below => "2"@,
                CaptionPosition::Above => "3"@,
                CaptionPosition::Left => "4"@,
                CaptionPosition::Right => "5"@,
                CaptionPosition::Center => "6"@,
            }),
    {
        match self {
            CaptionPosition::NoIcon => owned("0"),
            CaptionPosition::NoCaption => owned("1"),
            CaptionPosition::Below => owned("2"),
            CaptionPosition::Above => owned("3"),
            CaptionPosition::Left => owned("4"),
            CaptionPosition::Right => owned("5"),
            CaptionPosition::Center => owned("6"),
        }
    }
}

//------------------- TextMarkupType ----------------------//

pub enum TextMarkupType {
    Highlight,
    Underline,
    Squiggly,
    StrikeOut,
}

impl TextMarkupType {
    pub fn to_string(&self) -> (s: String)
        ensures
            s@ == (match *self {
                TextMarkupType::Highlight => "Highlight"@,
                TextMarkupType::Underline => "Underline"@,
                TextMarkupType::Squiggly => "Squiggly"@,
                TextMarkupType::StrikeOut => "StrikeOut"@,
            }),
    {
        match self {
            TextMarkupType::Highlight => owned("Highlight"),
            TextMarkupType::Underline => owned("Underline"),
            TextMarkupType::Squiggly => owned("Squiggly"),
            TextMarkupType::StrikeOut => owned("StrikeOut"),
        }
    }
}

//------------------- BorderStyle ----------------------//

#[derive(Debug, Clone, Copy, PartialEq, Eq, Structural)]
pub enum BorderStyle {
    Solid,
    Dashed,
    Beveled,
    Inset,
    Underline,
}

impl BorderStyle {
    pub fn as_str(&self) -> (s: &'static str)
        ensures
            s@ == (match *self {
                BorderStyle::Solid => "S"@,
                BorderStyle::Dashed => "D"@,
                BorderStyle::Beveled => "B"@,
                BorderStyle::Inset => "I"@,
                BorderStyle::Underline => "U"@,
            }),
    {
        match self {
            BorderStyle::Solid => "S",
            BorderStyle::Dashed => "D",
            BorderStyle::Beveled => "B",
            BorderStyle::Inset => "I",
            BorderStyle::Underline => "U",
        }
    }
}

//------------------- TextIcon ----------------------//

#[derive(Debug, Clone, Copy, PartialEq, Eq, Structural)]
pub enum TextIcon {
    Comment,
    Key,
    Note,
    Help,
    NewParagraph,
    Paragraph,
    Insert,
}

impl TextIcon {
    pub fn as_str(&self) -> (s: &'static str)
        ensures
            s@ == (match *self {
                TextIcon::Comment => "Comment"@,
                TextIcon::Key => "Key"@,
                TextIcon::Note => "Note"@,
                TextIcon::Help => "Help"@,
                TextIcon::NewParagraph => "NewParagraph"@,
                TextIcon::Paragraph => "Paragraph"@,
                TextIcon::Insert => "Insert"@,
            }),
    {
        match self {
            TextIcon::Comment => "Comment",
            TextIcon::Key => "Key",
            TextIcon::Note => "Note",
            TextIcon::Help => "Help",
            TextIcon::NewParagraph => "NewParagraph",
            TextIcon::Paragraph => "Paragraph",
            TextIcon::Insert => "Insert",
        }
    }
}

//------------------- HighlightingMode ----------------------//

pub enum HighlightingMode {
    NoHighlighting,
    Invert,
    Outline,
    Push,
    Toggle,
}

impl HighlightingMode {
    /// The /H value: `N`, `I`, `O`, `P` or `T`.
    pub fn to_pdf_string(&self) -> (s: PdfStringObject)
        ensures
            s.value@ == (match *self {
                HighlightingMode::NoHighlighting => "N"@,
                HighlightingMode::Invert => "I"@,
                HighlightingMode::Outline => "O"@,
                HighlightingMode::Push => "P"@,
                HighlightingMode::Toggle => "T"@,
            }),
    {
        match self {
            HighlightingMode::NoHighlighting => PdfStringObject::new("N"),
            HighlightingMode::Invert => PdfStringObject::new("I"),
            HighlightingMode::Outline => PdfStringObject::new("O"),
            HighlightingMode::Push => PdfStringObject::new("P"),
            HighlightingMode::Toggle => PdfStringObject::new("T"),
        }
    }
}

//------------------- GuidelineStyle ----------------------//

pub enum GuidelineStyle {
    Solid,
    Dashed,
}

impl GuidelineStyle {
    pub fn as_string(&self) -> (s: &'static str)
        ensures
            s@ == (match *self {
                GuidelineStyle::Solid => "S"@,
                GuidelineStyle::Dashed => "D"@,
            }),
    {
        match self {
            GuidelineStyle::Solid => "S",
            GuidelineStyle::Dashed => "D",
        }
    }
}

//------------------- OutputIntentSubtype ----------------------//

pub enum OutputIntentSubtype {
    GtsPdfx,
    GtsPdfa1,
    IsoPdfe1,
}

impl OutputIntentSubtype {
    pub fn as_string(&self) -> (s: &'static str)
        ensures
            s@ == (match *self {
                OutputIntentSubtype::GtsPdfx => "GTS_PDFX"@,
                OutputIntentSubtype::GtsPdfa1 => "GTS_PDFA1"@,
                OutputIntentSubtype::IsoPdfe1 => "ISO_PDFE1"@,
            }),
    {
        match self {
            OutputIntentSubtype::GtsPdfx => "GTS_PDFX",
            OutputIntentSubtype::GtsPdfa1 => "GTS_PDFA1",
            OutputIntentSubtype::IsoPdfe1 => "ISO_PDFE1",
        }
    }
}

pub enum FreeTextIntent {
    FreeText,
    FreeTextCallout,
    FreeTextTypeWriter,
}

impl FreeTextIntent {
    /// The number written for the intent: its position in the list, from 0.
    pub fn value(&self) -> (v: i64)
        ensures
            v == (match *self {
                FreeTextIntent::FreeText => 0i64,
                FreeTextIntent::FreeTextCallout => 1i64,
                FreeTextIntent::FreeTextTypeWriter => 2i64,
            }),
    {
        match self {
            FreeTextIntent::FreeText => 0,
            FreeTextIntent::FreeTextCallout => 1,
            FreeTextIntent::FreeTextTypeWriter => 2,
        }
    }
}

/// Justification of text: left (0), centred (1) or right (2).
pub enum Quadding {
    Left,
    Center,
    Right,
}

impl Quadding {
    /// The /Q value.
    pub fn value(&self) -> (q: i64)
        ensures
            q == (match *self {
                Quadding::Left => 0i64,
                Quadding::Center => 1i64,
                Quadding::Right => 2i64,
            }),
    {
        match self {
            Quadding::Left => 0,
            Quadding::Center => 1,
            Quadding::Right => 2,
        }
    }
}

//------------------- Poly ----------------------//

pub enum Poly {
    Polygon,
    PolyLine,
}

impl Poly {
    pub fn to_string(&self) -> (s: String)
        ensures
            s@ == (match *self {
                Poly::Polygon => "Polygon"@,
                Poly::PolyLine => "PolyLine"@,
            }),
    {
        match self {
            Poly::Polygon => owned("Polygon"),
            Poly::PolyLine => owned("PolyLine"),
        }
    }
}

//------------------- Shape ----------------------//

pub enum Shape {
    Square,
    Circle,
}

impl Shape {
    pub fn to_string(&self) -> (s: String)
        ensures
            s@ == (match *self {
                Shape::Square => "Square"@,
                Shape::Circle => "Circle"@,
            }),
    {
        match self {
            Shape::Square => owned("Square"),
            Shape::Circle => owned("Circle"),
        }
    }
}

} // verus!
