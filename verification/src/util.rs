//! Small drawing enumerations and the stream filter names.
use vstd::prelude::*;

use crate::strbuf::owned;

verus! {

/// Types that write themselves as operands of a content stream.
pub trait StreamString {
    fn to_stream_string(&self) -> String;
}

/// Fill rule for paths.
#[derive(Debug, Clone, Copy, PartialEq, Eq, Structural)]
pub enum WindingRule {
    NonZero,
    EvenOdd,
}

/// How a stream's content is compressed.
#[derive(Debug, Clone, Copy, PartialEq, Eq, Structural)]
pub enum CompressionMethod {
    /// No compression.
    Uncompressed,
    /// zlib/deflate.
    Flate,
}

impl CompressionMethod {
    /// The filter names written for the method.
    pub fn to_string(&self) -> (s: String)
        ensures
            s@ == (match *self {
                CompressionMethod::Flate => "/A85 /Fl"@,
                CompressionMethod::Uncompressed => "/A85"@,
            }),
    {
        match self {
            CompressionMethod::Flate => owned("/A85 /Fl"),
            CompressionMethod::Uncompressed => owned("/A85"),
        }
    }
}

/// Whether a path is stroked or filled.
#[derive(Debug, Clone, Copy, PartialEq, Eq, Structural)]
pub enum StrokeOrFill {
    Stroke,
    Fill,
}

} // verus!
