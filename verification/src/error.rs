//! Errors of the library.
use vstd::prelude::*;

use crate::decimal::{decimal_chars, push_decimal_str};
use crate::strbuf::push_str;

verus! {

#[verifier::external_type_specification]
#[verifier::external_body]
pub struct ExIoError(std::io::Error);

/// `std::io::Error`'s `Display` text. Nothing is stated of it: it depends on the
/// operating system's messages.
#[verifier::external_body]
fn io_error_text(e: &std::io::Error) -> String {
    e.to_string()
}

/// Errors raised while building or checking PDF structures.
#[derive(Debug)]
pub enum PdfError {
    Io(std::io::Error),
    InvalidObjectReference(usize),
    InvalidArgument(String),
    CompressionError(String),
    InvalidFont(String),
    InvalidFunctionSpecification,
    InvalidImage(String),
    StructureError(String),
    SerializeError(String),
    StreamError(String),
}

/// The human-readable text of an error; of an I/O error, the start of its text, which
/// goes on with the operating system's message.
pub open spec fn error_message(e: PdfError) -> Seq<char> {
    match e {
        PdfError::Io(_) => "I/O error: "@,
        PdfError::InvalidObjectReference(num) => "Invalid object reference: "@ + decimal_chars(num as nat),
        PdfError::InvalidArgument(msg) => "Invalid argument: "@ + msg@,
        PdfError::CompressionError(msg) => "Compression error: "@ + msg@,
        PdfError::InvalidFont(msg) => "Invalid font: "@ + msg@,
        PdfError::InvalidFunctionSpecification => "Invalid function specification"@,
        PdfError::InvalidImage(msg) => "Invalid image: "@ + msg@,
        PdfError::StructureError(msg) => "PDF structure error: "@ + msg@,
        PdfError::SerializeError(msg) => "Serialization error: "@ + msg@,
        PdfError::StreamError(msg) => "Stream error: "@ + msg@,
    }
}

impl PdfError {
    /// The text that the error displays.
    pub fn to_message(&self) -> (s: String)
        ensures
            error_message(*self).is_prefix_of(s@),
            !(*self is Io) ==> s@ == error_message(*self),
    {
        let mut s = String::new();
        match self {
            PdfError::Io(err) => {
                push_str(&mut s, "I/O error: ");
                let text = io_error_text(err);
                push_str(&mut s, text.as_str());
            },
            PdfError::InvalidObjectReference(num) => {
                push_str(&mut s, "Invalid object reference: ");
                push_decimal_str(&mut s, *num as u64);
            },
            PdfError::InvalidArgument(msg) => {
                push_str(&mut s, "Invalid argument: ");
                push_str(&mut s, msg.as_str());
            },
            PdfError::CompressionError(msg) => {
                push_str(&mut s, "Compression error: ");
                push_str(&mut s, msg.as_str());
            },
            PdfError::InvalidFont(msg) => {
                push_str(&mut s, "Invalid font: ");
                push_str(&mut s, msg.as_str());
            },
            PdfError::InvalidFunctionSpecification => {
                push_str(&mut s, "Invalid function specification");
            },
            PdfError::InvalidImage(msg) => {
                push_str(&mut s, "Invalid image: ");
                push_str(&mut s, msg.as_str());
            },
            PdfError::StructureError(msg) => {
                push_str(&mut s, "PDF structure error: ");
                push_str(&mut s, msg.as_str());
            },
            PdfError::SerializeError(msg) => {
                push_str(&mut s, "Serialization error: ");
                push_str(&mut s, msg.as_str());
            },
            PdfError::StreamError(msg) => {
                push_str(&mut s, "Stream error: ");
                push_str(&mut s, msg.as_str());
            },
        }
        s
    }
}

impl From<std::io::Error> for PdfError {
    fn from(err: std::io::Error) -> (e: Self) {
        PdfError::Io(err)
    }
}

impl vstd::std_specs::convert::FromSpecImpl<std::io::Error> for PdfError {
    open spec fn obeys_from_spec() -> bool {
        true
    }

    open spec fn from_spec(v: std::io::Error) -> Self {
        PdfError::Io(v)
    }
}

} // verus!
