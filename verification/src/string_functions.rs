//! Encoding of PDF text strings as `String`s.
use vstd::prelude::*;

use crate::hexfmt::{upper_hex_char, upper_hex_digit};
use crate::string::escaped_text;
use crate::strbuf::{push_char, push_str};
use crate::unicode::{chars_of, utf16_of, utf16_units};

verus! {

/// Four upper-case hex digits of a code unit.
pub open spec fn hex4(u: u16) -> Seq<char> {
    seq![
        upper_hex_digit((u / 4096) as u8),
        upper_hex_digit(((u / 256) % 16) as u8),
        upper_hex_digit(((u / 16) % 16) as u8),
        upper_hex_digit((u % 16) as u8),
    ]
}

/// Four hex digits for each code unit.
pub open spec fn hex4_units(units: Seq<u16>) -> Seq<char>
    decreases units.len(),
{
    if units.len() == 0 {
        Seq::empty()
    } else {
        hex4_units(units.drop_last()) + hex4(units.last())
    }
}

/// ASCII text: `(`, the escaped text, `)`. Other text: the UTF-16BE encoding with its byte
/// order mark, hex-encoded: `<`, `FEFF`, four upper-case hex digits per UTF-16 code unit, `>`.
pub open spec fn pdf_string_text(s: Seq<char>) -> Seq<char> {
    if vstd::utf8::is_ascii_chars(s) {
        seq!['('] + escaped_text(s) + seq![')']
    } else {
        seq!['<', 'F', 'E', 'F', 'F'] + hex4_units(utf16_units(s)) + seq!['>']
    }
}

pub fn encode_pdf_string(string: &str) -> (s: String)
    ensures
        s@ == pdf_string_text(string@),
{
    if string.is_ascii() {
        encode_ascii(string)
    } else {
        encode_non_ascii(string)
    }
}

/// Escape and wrap in parentheses.
pub fn encode_ascii(string: &str) -> (result: String)
    ensures
        result@ == seq!['('] + escaped_text(string@) + seq![')'],
{
    let chars = chars_of(string);
    let mut result = String::new();
    push_char(&mut result, '(');
    let mut i: usize = 0;
    while i < chars.len()
        invariant
            i <= chars@.len(),
            result@ == seq!['('] + escaped_text(chars@.take(i as int)),
        decreases chars@.len() - i,
    {
        let ch = chars[i];
        if ch == '\\' || ch == '(' || ch == ')' {
            push_char(&mut result, '\\');
        }
        push_char(&mut result, ch);
        i = i + 1;
        assert(chars@.take(i as int).drop_last() =~= chars@.take(i - 1));
        assert(result@ =~= seq!['('] + escaped_text(chars@.take(i as int)));
    }
    push_char(&mut result, ')');
    assert(chars@.take(i as int) =~= chars@);
    result
}

/// The UTF-16BE encoding with its byte order mark, in upper-case hex between `<` and `>`.
pub fn encode_non_ascii(string: &str) -> (result: String)
    ensures
        result@ == seq!['<', 'F', 'E', 'F', 'F'] + hex4_units(utf16_units(string@)) + seq!['>'],
{
    let units = utf16_of(string);
    let mut hex_content = String::new();
    let mut i: usize = 0;
    while i < units.len()
        invariant
            i <= units@.len(),
            hex_content@ == hex4_units(units@.take(i as int)),
        decreases units@.len() - i,
    {
        let u = units[i];
        push_char(&mut hex_content, upper_hex_char((u / 4096) as u8));
        push_char(&mut hex_content, upper_hex_char(((u / 256) % 16) as u8));
        push_char(&mut hex_content, upper_hex_char(((u / 16) % 16) as u8));
        push_char(&mut hex_content, upper_hex_char((u % 16) as u8));
        i = i + 1;
        assert(units@.take(i as int).drop_last() =~= units@.take(i - 1));
        assert(hex_content@ =~= hex4_units(units@.take(i as int)));
    }
    assert(units@.take(i as int) =~= units@);
    let mut result = String::new();
    push_char(&mut result, '<');
    push_char(&mut result, 'F');
    push_char(&mut result, 'E');
    push_char(&mut result, 'F');
    push_char(&mut result, 'F');
    push_str(&mut result, hex_content.as_str());
    push_char(&mut result, '>');
    result
}

} // verus!
