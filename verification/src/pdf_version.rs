use vstd::prelude::*;

verus! {

/// The version requested for the written file; `Auto` writes 1.7.
#[derive(Debug, Clone, Copy, PartialEq, Eq, PartialOrd, Ord, Structural)]
pub enum PdfVersion {
    Auto,
    V1_4,
    V1_5,
}

impl Default for PdfVersion {
    fn default() -> (v: Self)
        ensures
            v == PdfVersion::Auto,
    {
        PdfVersion::Auto
    }
}

/// The header text of a requested version.
pub open spec fn pdf_version_text(v: PdfVersion) -> Seq<char> {
    match v {
        PdfVersion::Auto => "1.7"@,
        PdfVersion::V1_4 => "1.4"@,
        PdfVersion::V1_5 => "1.5"@,
    }
}

impl PdfVersion {
    pub fn as_str(&self) -> (s: &'static str)
        ensures
            s@ == pdf_version_text(*self),
    {
        match self {
            PdfVersion::Auto => "1.7",
            PdfVersion::V1_4 => "1.4",
            PdfVersion::V1_5 => "1.5",
        }
    }
}

} // verus!
