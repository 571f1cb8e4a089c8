//! Function types of PDF functions (sampled, exponential, stitching, PostScript).
use vstd::prelude::*;

use crate::decimal::{decimal_chars, push_decimal_str};
use crate::error::PdfError;
use crate::strbuf::owned;

verus! {

/// The sample sizes that a sampled function allows.
pub open spec fn valid_bits_per_sample(bits: u32) -> bool {
    bits == 1 || bits == 2 || bits == 4 || bits == 8 || bits == 12 || bits == 16 || bits == 24 || bits == 32
}

/// `BitsPerSample must be 1, 2, 4, 8, 12, 16, 24, or 32, got <bits>`
pub open spec fn bits_per_sample_message(bits: u32) -> Seq<char> {
    "BitsPerSample must be 1, 2, 4, 8, 12, 16, 24, or 32, got "@ + decimal_chars(bits as nat)
}

/// `Ok` for an allowed sample size; otherwise the structure error that names the value.
pub fn check_bits_per_sample(bits_per_sample: u32) -> (r: Result<(), PdfError>)
    ensures
        (r is Ok) == valid_bits_per_sample(bits_per_sample),
        r matches Err(e) ==> e matches PdfError::StructureError(m) && m@ == bits_per_sample_message(bits_per_sample),
{
    match bits_per_sample {
        1 | 2 | 4 | 8 | 12 | 16 | 24 | 32 => Ok(()),
        _ => {
            let mut m = owned("BitsPerSample must be 1, 2, 4, 8, 12, 16, 24, or 32, got ");
            push_decimal_str(&mut m, bits_per_sample as u64);
            Err(PdfError::StructureError(m))
        },
    }
}

/// The kinds of function; the /FunctionType entry holds the number of each.
#[derive(Debug, Clone, Copy, PartialEq, Eq, Structural)]
pub enum FunctionType {
    Sampled,
    Exponential,
    Stitching,
    PostScript,
}

impl FunctionType {
    /// The /FunctionType number.
    pub fn value(&self) -> (v: i64)
        ensures
            v == (match *self {
                FunctionType::Sampled => 0i64,
                FunctionType::Exponential => 2i64,
                FunctionType::Stitching => 3i64,
                FunctionType::PostScript => 4i64,
            }),
    {
        match self {
            FunctionType::Sampled => 0,
            FunctionType::Exponential => 2,
            FunctionType::Stitching => 3,
            FunctionType::PostScript => 4,
        }
    }
}

/// Interpolation order of a sampled function; the /Order entry holds its number.
#[derive(Debug, Clone, Copy, PartialEq, Eq, Structural)]
pub enum OrderType {
    Linear,
    CubicSpline,
}

impl OrderType {
    /// The /Order number.
    pub fn value(&self) -> (v: i64)
        ensures
            v == (match *self {
                OrderType::Linear => 1i64,
                OrderType::CubicSpline => 3i64,
            }),
    {
        match self {
            OrderType::Linear => 1,
            OrderType::CubicSpline => 3,
        }
    }
}

} // verus!
