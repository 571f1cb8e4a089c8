//! Colour spaces by name.
use vstd::prelude::*;

use crate::strbuf::owned;

verus! {

/// The device colour spaces.
#[derive(Debug, Clone, Copy, PartialEq, Eq, Structural)]
pub enum ColorSpace {
    CMYK,
    Gray,
    RGB,
}

/// The name of a colour space.
pub open spec fn color_space_name(c: ColorSpace) -> Seq<char> {
    match c {
        ColorSpace::RGB => "RGB"@,
        ColorSpace::CMYK => "CMYK"@,
        ColorSpace::Gray => "Gray"@,
    }
}

impl ColorSpace {
    /// The colour space's name (its display text).
    pub fn as_string(&self) -> (s: String)
        ensures
            s@ == color_space_name(*self),
    {
        match self {
            ColorSpace::RGB => owned("RGB"),
            ColorSpace::CMYK => owned("CMYK"),
            ColorSpace::Gray => owned("Gray"),
        }
    }

    /// The colour space with the given name, if there is one.
    pub fn from_string(s: &str) -> (c: Option<ColorSpace>)
        ensures
            c == (if s@ == "RGB"@ {
                Some(ColorSpace::RGB)
            } else if s@ == "CMYK"@ {
                Some(ColorSpace::CMYK)
            } else if s@ == "Gray"@ {
                Some(ColorSpace::Gray)
            } else {
                None
            }),
    {
        let given = owned(s);
        if given == owned("RGB") {
            Some(ColorSpace::RGB)
        } else if given == owned("CMYK") {
            Some(ColorSpace::CMYK)
        } else if given == owned("Gray") {
            Some(ColorSpace::Gray)
        } else {
            None
        }
    }
}

/// Reading a colour space's name gives back that colour space.
pub proof fn lemma_color_space_name_round_trip(c: ColorSpace)
    ensures
        (if color_space_name(c) == "RGB"@ {
            Some(ColorSpace::RGB)
        } else if color_space_name(c) == "CMYK"@ {
            Some(ColorSpace::CMYK)
        } else if color_space_name(c) == "Gray"@ {
            Some(ColorSpace::Gray)
        } else {
            None
        }) == Some(c),
{
    reveal_strlit("RGB");
    reveal_strlit("CMYK");
    reveal_strlit("Gray");
    assert("RGB"@.len() != "CMYK"@.len());
    assert("RGB"@.len() != "Gray"@.len());
    assert("CMYK"@[0] != "Gray"@[0]);
}

} // verus!
