//! Encoding of PDF text strings with `regex` and `hex`: escaped literal strings for ASCII
//! text, hex strings of UTF-16BE with a byte order mark otherwise.
use vstd::prelude::*;
use vstd::utf8::encode_utf8;

use crate::hexfmt::lower_hex;
use crate::unicode::{push_units_be, units_be_bytes, utf16_of, utf16_units};

verus! {

/// The UTF-16BE byte order mark.
pub const BOM_UTF16_BE: [u8; 2] = [0xFE, 0xFF];

/// The pattern of the characters that a literal string escapes: `\`, `(` and `)`.
pub const DELIMITER_PATTERN: &'static str = r"([\\()])";

/// The replacement of such a character: a backslash and the character.
pub const DELIMITER_REPLACEMENT: &'static str = r"\$1";

/// The escape of one character: a backslash before `\`, `(` and `)`.
pub open spec fn escaped_char(c: char) -> Seq<char> {
    if c == '\\' || c == '(' || c == ')' {
        seq!['\\', c]
    } else {
        seq![c]
    }
}

/// Text with a backslash inserted before each `\`, `(` and `)`.
pub open spec fn escaped_text(s: Seq<char>) -> Seq<char>
    decreases s.len(),
{
    if s.len() == 0 {
        Seq::empty()
    } else {
        escaped_text(s.drop_last()) + escaped_char(s.last())
    }
}

/// Escaped text read back: a backslash stands for the character after it.
pub open spec fn unescaped_text(s: Seq<char>) -> Seq<char>
    decreases s.len(),
{
    if s.len() == 0 {
        Seq::empty()
    } else if s[0] == '\\' && s.len() >= 2 {
        seq![s[1]] + unescaped_text(s.skip(2))
    } else {
        seq![s[0]] + unescaped_text(s.skip(1))
    }
}

/// Escaping a text works character by character from the front too.
proof fn lemma_escaped_text_front(c: char, rest: Seq<char>)
    ensures
        escaped_text(seq![c] + rest) == escaped_char(c) + escaped_text(rest),
    decreases rest.len(),
{
    if rest.len() == 0 {
        assert(seq![c] + rest =~= seq![c]);
        assert(seq![c].drop_last() =~= Seq::<char>::empty());
        assert(escaped_text(seq![c]) == escaped_text(seq![c].drop_last()) + escaped_char(c));
        assert(escaped_char(c) + escaped_text(rest) =~= escaped_char(c));
        assert(escaped_text(Seq::<char>::empty()) + escaped_char(c) =~= escaped_char(c));
    } else {
        lemma_escaped_text_front(c, rest.drop_last());
        assert((seq![c] + rest).drop_last() =~= seq![c] + rest.drop_last());
        assert((seq![c] + rest).last() == rest.last());
        assert(escaped_text(seq![c] + rest) =~= escaped_char(c) + escaped_text(rest));
    }
}

/// Escaped text reads back as the text: no character is lost or changed by escaping.
pub proof fn lemma_escaped_text_reads_back(s: Seq<char>)
    ensures
        unescaped_text(escaped_text(s)) == s,
    decreases s.len(),
{
    if s.len() > 0 {
        let c = s[0];
        let rest = s.skip(1);
        assert(s =~= seq![c] + rest);
        lemma_escaped_text_front(c, rest);
        lemma_escaped_text_reads_back(rest);
        let e = escaped_text(s);
        let er = escaped_text(rest);
        if c == '\\' || c == '(' || c == ')' {
            assert(e =~= seq!['\\', c] + er);
            assert(e.skip(2) =~= er);
        } else {
            assert(e =~= seq![c] + er);
            assert(e.skip(1) =~= er);
        }
    }
}

/// What `Regex::replace_all` gives for a pattern, a text and a replacement.
pub uninterp spec fn regex_replace_all(pattern: Seq<char>, text: Seq<char>, replacement: Seq<char>) -> Seq<char>;

/// `regex::Regex::new(pattern)` followed by `replace_all(text, replacement)`: `None` when
/// the pattern does not compile. The contract names the replaced text
/// `regex_replace_all(pattern, text, replacement)`; of the delimiter pattern and its
/// replacement it states what regex syntax makes of them: the pattern compiles, and every
/// match, a single `\`, `(` or `)`, is replaced by a backslash and the matched character.
#[verifier::external_body]
fn replace_all_matches(pattern: &str, text: &str, replacement: &str) -> (r: Option<String>)
    ensures
        r matches Some(s) ==> s@ == regex_replace_all(pattern@, text@, replacement@),
        pattern@ == DELIMITER_PATTERN@ ==> r is Some,
        (r matches Some(s) && pattern@ == DELIMITER_PATTERN@ && replacement@ == DELIMITER_REPLACEMENT@)
            ==> r->Some_0@ == escaped_text(text@),
{
    match regex::Regex::new(pattern) {
        Ok(re) => Some(re.replace_all(text, replacement).into_owned()),
        Err(_) => None,
    }
}

/// `hex::encode`: two lower-case hex digits per byte.
#[verifier::external_body]
fn hex_encode(data: &[u8]) -> (s: String)
    ensures
        s@ == lower_hex(data@),
{
    hex::encode(data)
}

/// ASCII text: `(`, the escaped text, `)`. Other text: `<`, the lower-case hex digits of the
/// byte order mark and the UTF-16BE bytes, `>`.
pub open spec fn pdf_string_bytes(s: Seq<char>) -> Seq<u8> {
    if vstd::utf8::is_ascii_chars(s) {
        seq![40u8] + encode_utf8(escaped_text(s)) + seq![41u8]
    } else {
        seq![60u8] + encode_utf8(lower_hex(BOM_UTF16_BE@ + units_be_bytes(utf16_units(s)))) + seq![62u8]
    }
}

/// Encode a string for PDF format: ASCII strings escaped and wrapped in parentheses,
/// other strings UTF-16-BE encoded with a byte order mark and hex-encoded.
pub fn encode_pdf_string(string: &str) -> (v: Vec<u8>)
    ensures
        v@ == pdf_string_bytes(string@),
{
    if string.is_ascii() {
        encode_ascii(string)
    } else {
        encode_non_ascii(string)
    }
}

/// Appends all of `src` to `dst`.
fn extend_from(dst: &mut Vec<u8>, src: &[u8])
    ensures
        final(dst)@ == old(dst)@ + src@,
{
    let ghost start = dst@;
    let mut i: usize = 0;
    while i < src.len()
        invariant
            i <= src@.len(),
            dst@ == start + src@.take(i as int),
        decreases src@.len() - i,
    {
        dst.push(src[i]);
        i = i + 1;
        assert(dst@ =~= start + src@.take(i as int));
    }
    assert(src@.take(i as int) =~= src@);
}

fn encode_ascii(string: &str) -> (result: Vec<u8>)
    requires
        vstd::utf8::is_ascii_chars(string@),
    ensures
        result@ == seq![40u8] + encode_utf8(escaped_text(string@)) + seq![41u8],
{
    let escaped = replace_all_matches(DELIMITER_PATTERN, string, DELIMITER_REPLACEMENT);
    let escaped = escaped.unwrap();
    let mut result: Vec<u8> = Vec::new();
    result.push(40u8);
    extend_from(&mut result, escaped.as_str().as_bytes());
    result.push(41u8);
    assert(result@ =~= seq![40u8] + encode_utf8(escaped_text(string@)) + seq![41u8]);
    result
}

fn encode_non_ascii(string: &str) -> (result: Vec<u8>)
    ensures
        result@ == seq![60u8] + encode_utf8(lower_hex(BOM_UTF16_BE@ + units_be_bytes(utf16_units(string@)))) + seq![62u8],
{
    let mut encoded: Vec<u8> = Vec::new();
    encoded.push(0xFEu8);
    encoded.push(0xFFu8);
    let units = utf16_of(string);
    push_units_be(&mut encoded, units.as_slice());
    assert(encoded@ =~= BOM_UTF16_BE@ + units_be_bytes(utf16_units(string@)));
    let hex_string = hex_encode(encoded.as_slice());
    let mut result: Vec<u8> = Vec::new();
    result.push(60u8);
    extend_from(&mut result, hex_string.as_str().as_bytes());
    result.push(62u8);
    assert(result@ =~= seq![60u8] + encode_utf8(lower_hex(BOM_UTF16_BE@ + units_be_bytes(utf16_units(string@)))) + seq![62u8]);
    result
}

} // verus!
