//! String objects and the encodings of text strings.
use vstd::prelude::*;
use vstd::utf8::encode_utf8;

use crate::error::PdfError;
use crate::object_ops::{write_bytes, Encode, Serialize, XRefEntry};
use crate::unicode::{chars_of, push_units_be, units_be_bytes, utf16_of, utf16_units};
use crate::version::{version_rank, Version};

verus! {

/// A string object; its encoding is the UTF-8 bytes of its value.
#[derive(Clone)]
pub struct PdfStringObject {
    pub value: String,
}

impl PdfStringObject {
    pub fn new(value: &str) -> (o: Self)
        ensures
            o.value@ == value@,
    {
        Self { value: crate::strbuf::owned(value) }
    }

    pub fn encode(&self) -> (r: Result<Vec<u8>, PdfError>)
        ensures
            r matches Ok(v) && v@ == encode_utf8(self.value@),
    {
        Ok(vstd::slice::slice_to_vec(self.value.as_str().as_bytes()))
    }
}

impl Encode for PdfStringObject {
    open spec fn encodable(&self) -> bool {
        true
    }

    /// In a file a string object is written as a text string.
    open spec fn encoding(&self, version: Version) -> Seq<u8> {
        text_string_bytes(self.value@, version)
    }

    fn encode(&self, version: Version) -> (r: Result<Vec<u8>, PdfError>) {
        Ok(encode_text_string(self.value.as_str(), version))
    }
}

impl Serialize for PdfStringObject {
    open spec fn serialization(&self, version: Version) -> Seq<u8> {
        self.encoding(version)
    }

    open spec fn xref_entries(&self, version: Version, start: nat) -> Seq<XRefEntry> {
        Seq::empty()
    }

    fn serialize(&self, version: Version, xref: &mut Vec<XRefEntry>, file: &mut Vec<u8>) -> (r: Result<(), PdfError>) {
        write_bytes(file, encode_text_string(self.value.as_str(), version));
        assert(xref@ =~= old(xref)@ + Seq::<XRefEntry>::empty());
        Ok(())
    }
}

/// The UTF-16 big-endian byte order mark.
pub const BOM_UTF16: [u8; 2] = [0xFE, 0xFF];

/// The UTF-8 byte order mark.
pub const BOM_UTF8: [u8; 3] = [0xEF, 0xBB, 0xBF];

/// A character of a literal string, with a backslash before `\`, `(` and `)`.
pub open spec fn escaped_char_byte(c: char) -> Seq<u8> {
    if c == '\\' || c == '(' || c == ')' {
        seq![92u8, c as u8]
    } else {
        seq![c as u8]
    }
}

/// The escaped bytes of the characters of a literal string.
pub open spec fn escaped_bytes(s: Seq<char>) -> Seq<u8>
    decreases s.len(),
{
    if s.len() == 0 {
        Seq::empty()
    } else {
        escaped_bytes(s.drop_last()) + escaped_char_byte(s.last())
    }
}

/// `(`, the escaped characters, `)`.
pub open spec fn literal_string_bytes(s: Seq<char>) -> Seq<u8> {
    seq![40u8] + escaped_bytes(s) + seq![41u8]
}

/// A text string: a literal string for ASCII text; otherwise the UTF-8 bytes after their
/// byte order mark from PDF 2.0 (2017) on, and the UTF-16BE bytes after theirs before it.
pub open spec fn text_string_bytes(s: Seq<char>, version: Version) -> Seq<u8> {
    if vstd::utf8::is_ascii_chars(s) {
        literal_string_bytes(s)
    } else if version_rank(version) >= version_rank(Version::V2_2017) {
        BOM_UTF8@ + encode_utf8(s)
    } else {
        BOM_UTF16@ + units_be_bytes(utf16_units(s))
    }
}

pub fn encode_text_string(string: &str, version: Version) -> (v: Vec<u8>)
    ensures
        v@ == text_string_bytes(string@, version),
{
    if string.is_ascii() {
        proof { vstd::utf8::is_ascii_chars_nat_bound(string@); }
        encode_ascii(string)
    } else if version.at_least(Version::V2_2017) {
        encode_non_ascii_utf8(string)
    } else {
        encode_non_ascii_utf16(string)
    }
}

/// A literal string of characters that each fit in a byte.
pub fn encode_ascii(string: &str) -> (result: Vec<u8>)
    requires
        forall|i: int| 0 <= i < string@.len() ==> (string@[i] as nat) < 256,
    ensures
        result@ == literal_string_bytes(string@),
{
    let chars = chars_of(string);
    let mut result: Vec<u8> = Vec::new();
    result.push(40u8);
    let mut i: usize = 0;
    while i < chars.len()
        invariant
            i <= chars@.len(),
            chars@ == string@,
            forall|k: int| 0 <= k < chars@.len() ==> (chars@[k] as nat) < 256,
            result@ == seq![40u8] + escaped_bytes(chars@.take(i as int)),
        decreases chars@.len() - i,
    {
        let ch = chars[i];
        let ghost before = result@;
        if ch == '\\' || ch == '(' || ch == ')' {
            result.push(92u8);
        }
        result.push(ch as u8);
        assert(result@ =~= before + escaped_char_byte(ch));
        i = i + 1;
        assert(chars@.take(i as int).drop_last() =~= chars@.take(i - 1));
        assert(result@ =~= seq![40u8] + escaped_bytes(chars@.take(i as int)));
    }
    result.push(41u8);
    assert(chars@.take(i as int) =~= chars@);
    assert(result@ =~= literal_string_bytes(string@));
    result
}

/// The UTF-16BE byte order mark followed by the big-endian UTF-16 code units.
pub fn encode_non_ascii_utf16(string: &str) -> (bytes: Vec<u8>)
    ensures
        bytes@ == BOM_UTF16@ + units_be_bytes(utf16_units(string@)),
{
    let mut bytes: Vec<u8> = Vec::new();
    bytes.push(0xFEu8);
    bytes.push(0xFFu8);
    let units = utf16_of(string);
    push_units_be(&mut bytes, units.as_slice());
    assert(bytes@ =~= BOM_UTF16@ + units_be_bytes(utf16_units(string@)));
    bytes
}

/// The UTF-8 byte order mark followed by the UTF-8 bytes.
pub fn encode_non_ascii_utf8(string: &str) -> (bytes: Vec<u8>)
    ensures
        bytes@ == BOM_UTF8@ + encode_utf8(string@),
{
    let mut bytes: Vec<u8> = Vec::new();
    bytes.push(0xEFu8);
    bytes.push(0xBBu8);
    bytes.push(0xBFu8);
    let src = string.as_bytes();
    let ghost start = bytes@;
    let mut i: usize = 0;
    while i < src.len()
        invariant
            i <= src@.len(),
            bytes@ == start + src@.take(i as int),
        decreases src@.len() - i,
    {
        bytes.push(src[i]);
        i = i + 1;
        assert(bytes@ =~= start + src@.take(i as int));
    }
    assert(src@.take(i as int) =~= src@);
    assert(bytes@ =~= BOM_UTF8@ + encode_utf8(string@));
    bytes
}

} // verus!
