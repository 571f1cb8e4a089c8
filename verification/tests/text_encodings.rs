use rusty_pdf::encoding::ascii85_encode;
use rusty_pdf::metadata_ops::escape_xml;
use rusty_pdf::objects::pdf_string::{
    encode_ascii, encode_non_ascii_utf16, encode_non_ascii_utf8, encode_text_string, BOM_UTF16, BOM_UTF8,
};
use rusty_pdf::string::encode_pdf_string as encode_pdf_string_bytes;
use rusty_pdf::string_functions::{encode_ascii as fn_encode_ascii, encode_non_ascii, encode_pdf_string};
use rusty_pdf::unicode::{chars_of, char_utf16, utf16_of};
use rusty_pdf::version::Version;

#[test]
fn ascii85_full_groups() {
    assert_eq!(ascii85_encode(b"Man "), b"9jqo^".to_vec());
    assert_eq!(ascii85_encode(&[0, 0, 0, 0]), b"z".to_vec());
}

#[test]
fn ascii85_partial_groups() {
    assert_eq!(ascii85_encode(b"Man"), b"9jqo".to_vec());
    assert_eq!(ascii85_encode(b"hello"), b"BOu!rDZ".to_vec());
    assert_eq!(ascii85_encode(b"\0\0\0\0abc"), b"z@:E^".to_vec());
    assert_eq!(ascii85_encode(b""), Vec::<u8>::new());
}

#[test]
fn literal_string_escapes_delimiters() {
    assert_eq!(encode_pdf_string_bytes("a(b)c\\"), b"(a\\(b\\)c\\\\)".to_vec());
    assert_eq!(encode_pdf_string_bytes("plain"), b"(plain)".to_vec());
    assert_eq!(encode_pdf_string_bytes(""), b"()".to_vec());
}

#[test]
fn non_ascii_string_is_utf16_hex() {
    assert_eq!(encode_pdf_string_bytes("é"), b"<feff00e9>".to_vec());
    assert_eq!(encode_pdf_string_bytes("a😀"), b"<feff0061d83dde00>".to_vec());
}

#[test]
fn string_functions_ascii_and_non_ascii() {
    assert_eq!(encode_pdf_string("x(y)"), "(x\\(y\\))");
    assert_eq!(fn_encode_ascii("\\"), "(\\\\)");
    assert_eq!(encode_pdf_string("é"), "<FEFF00E9>");
    assert_eq!(encode_non_ascii("😀"), "<FEFFD83DDE00>");
}

#[test]
fn text_strings_by_version() {
    assert_eq!(encode_text_string("a(b", Version::V1_7), b"(a\\(b)".to_vec());
    let mut utf16 = BOM_UTF16.to_vec();
    utf16.extend([0x00, 0xE9]);
    assert_eq!(encode_text_string("é", Version::V1_7), utf16);
    let mut utf8 = BOM_UTF8.to_vec();
    utf8.extend("é".as_bytes());
    assert_eq!(encode_text_string("é", Version::V2_2017), utf8);
    assert_eq!(encode_ascii("x)"), b"(x\\))".to_vec());
    assert_eq!(encode_non_ascii_utf16("é"), vec![0xFE, 0xFF, 0x00, 0xE9]);
    assert_eq!(encode_non_ascii_utf8("é"), vec![0xEF, 0xBB, 0xBF, 0xC3, 0xA9]);
}

#[test]
fn utf16_units() {
    assert_eq!(char_utf16('A'), vec![0x41]);
    assert_eq!(char_utf16('😀'), vec![0xD83D, 0xDE00]);
    assert_eq!(utf16_of("a😀"), "a😀".encode_utf16().collect::<Vec<u16>>());
    assert_eq!(chars_of("héllo"), vec!['h', 'é', 'l', 'l', 'o']);
}

#[test]
fn xml_escaping() {
    assert_eq!(escape_xml("a<b>&\"c'"), "a&lt;b&gt;&amp;&quot;c&apos;");
    assert_eq!(escape_xml("plain"), "plain");
    assert_eq!(escape_xml("&amp;"), "&amp;amp;");
}

fn ascii85_decode(data: &[u8]) -> Vec<u8> {
    let mut out = Vec::new();
    let mut i = 0;
    while i < data.len() {
        if data[i] == b'z' {
            out.extend([0, 0, 0, 0]);
            i += 1;
            continue;
        }
        let end = usize::min(i + 5, data.len());
        let mut group: Vec<u8> = data[i..end].to_vec();
        let n = group.len();
        while group.len() < 5 {
            group.push(b'u');
        }
        let mut v: u64 = 0;
        for &c in &group {
            v = v * 85 + (c - 33) as u64;
        }
        let bytes = (v as u32).to_be_bytes();
        out.extend(&bytes[..n - 1]);
        i = end;
    }
    out
}

#[test]
fn ascii85_decodes_back() {
    let data: Vec<u8> = (0u8..=255).chain([0, 0, 0, 0, 9, 9]).collect();
    assert_eq!(ascii85_decode(&ascii85_encode(&data)), data);
}

#[test]
fn escaped_xml_has_no_markup() {
    let out = escape_xml("<a href='x'>\"q\"</a>");
    assert!(!out.contains('<') && !out.contains('>') && !out.contains('"') && !out.contains('\''));
}

fn unescape(s: &str) -> String {
    let mut out = String::new();
    let mut chars = s.chars();
    while let Some(c) = chars.next() {
        if c == '\\' {
            if let Some(n) = chars.next() {
                out.push(n);
                continue;
            }
        }
        out.push(c);
    }
    out
}

#[test]
fn literal_strings_read_back() {
    for text in ["a(b)c", "\\\\(", "plain", ")(", ""] {
        let encoded = encode_pdf_string(text);
        assert_eq!(unescape(&encoded[1..encoded.len() - 1]), text);
    }
}
