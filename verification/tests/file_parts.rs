use std::io::Read;

use rusty_pdf::body::Body;
use rusty_pdf::object_number::ObjectNumber;
use rusty_pdf::object_ops::indirect_xref_entry;
use rusty_pdf::objects::pdf_boolean::PdfBooleanObject;
use rusty_pdf::xref::xref_section;

use rusty_pdf::error::PdfError;
use rusty_pdf::fonts::Fonts;
use rusty_pdf::header::header_bytes;
use rusty_pdf::metadata_ops::{MetadataOps, XMP_FOOTER, XMP_HEADER};
use rusty_pdf::object_ops::Serialize;
use rusty_pdf::objects::stream::{frame_stream, stream_bytes};
use rusty_pdf::trailer::trailer_bytes;
use rusty_pdf::util::CompressionMethod;
use rusty_pdf::version::Version;

#[test]
fn header_line_and_binary_comment() {
    let mut expected = b"%PDF-1.7\r\n".to_vec();
    expected.extend("âãÏÓ\r\n".as_bytes());
    assert_eq!(header_bytes(Version::V1_7), expected);
    assert!(header_bytes(Version::V2_2017).starts_with(b"%PDF-2.2017\r\n"));
}

#[test]
fn trailer_ends_with_startxref() {
    assert_eq!(
        trailer_bytes(b"<<>>\n", 1234),
        b"\ntrailer\n<<>>\nstartxref\n1234\n%%EOF\n".to_vec()
    );
}

#[test]
fn standard_fonts() {
    let fonts = Fonts::get_standard_fonts_dict();
    assert_eq!(fonts.len(), 3);
    assert!(fonts.contains_key("Helvetica"));
    assert!(fonts.contains_key("Helvetica-Bold"));
    assert!(fonts.contains_key("Courier"));
    let courier = fonts.get("Courier").unwrap();
    assert_eq!(courier.get("BaseFont").unwrap().value, b"Courier".to_vec());
    assert_eq!(courier.get("Subtype").unwrap().value, b"Type1".to_vec());
    let mut xref = Vec::new();
    let mut file = Vec::new();
    fonts.get("Helvetica").unwrap().serialize(Version::V1_5, &mut xref, &mut file).unwrap();
    assert_eq!(file, b" <<\n/Type /Font\n/Subtype /Type1\n/BaseFont /Helvetica\n>>\n".to_vec());
}

#[test]
fn uncompressed_stream_keeps_content() {
    assert_eq!(stream_bytes(CompressionMethod::Uncompressed, b"BT ET").unwrap(), b"BT ET".to_vec());
}

#[test]
fn flate_stream_is_zlib() {
    let content: Vec<u8> = b"q 1 0 0 1 0 0 cm Q ".repeat(40);
    let packed = stream_bytes(CompressionMethod::Flate, &content).unwrap();
    assert_ne!(packed, content);
    assert!(packed.len() < content.len());
    let mut decoder = flate2::read::ZlibDecoder::new(&packed[..]);
    let mut unpacked = Vec::new();
    decoder.read_to_end(&mut unpacked).unwrap();
    assert_eq!(unpacked, content);
}

#[test]
fn stream_frame() {
    assert_eq!(
        frame_stream(b"<< /Length 2 >>", b"ab"),
        b"<< /Length 2 >>\nstream\nabendstream\n".to_vec()
    );
}

#[test]
fn io_errors_convert_and_display() {
    let e = PdfError::from(std::io::Error::new(std::io::ErrorKind::Other, "disk full"));
    assert!(matches!(e, PdfError::Io(_)));
    assert_eq!(e.to_message(), "I/O error: disk full");
}

#[test]
fn xref_section_lines() {
    let entries = vec![indirect_xref_entry(ObjectNumber::new(1), 15), indirect_xref_entry(ObjectNumber::new(2), 1234)];
    let expected = b"xref\n0 3\n0000000000 65535 f\r\n0000000015 00000 n\r\n0000001234 00000 n\r\n".to_vec();
    assert_eq!(xref_section(&entries), expected);
}

#[test]
fn body_counts_indirect_objects() {
    let mut body = Body::new();
    body.add_indirect_object(PdfBooleanObject::new(true));
    assert_eq!(body.last_object_number, 1);
    assert_eq!(body.next_num(), 2);
}

#[test]
fn metadata_entries_and_packet() {
    let mut m = MetadataOps::new(ObjectNumber::new(6), ObjectNumber::new(7));
    m.add_title("Report").unwrap();
    m.add_author("Ann").unwrap();
    match m.add_title("Again") {
        Err(PdfError::StructureError(msg)) => assert_eq!(msg, "Key 'Title' already exists"),
        _ => panic!("expected a duplicate key error"),
    }
    assert_eq!(m.info_dict().len(), 2);
    assert_eq!(m.info_dict().get("Title").unwrap().value, "Report");
    assert_eq!(m.info_dict().object_number(), Some(ObjectNumber::new(6)));
    assert_eq!(m.xmp_object_number(), ObjectNumber::new(7));
    m.xmp_add("<dc:title>Report</dc:title>");
    let packet = m.xmp_packet();
    assert!(packet.starts_with("<?xpacket begin=\"\" id=\"W5M0MpCehiHzreSzNTczkc9d\"?>\n<x:xmpmeta"));
    assert_eq!(packet, format!("{}<dc:title>Report</dc:title>{}", XMP_HEADER, XMP_FOOTER));
}

#[test]
fn metadata_written_as_dictionary_and_stream() {
    let mut m = MetadataOps::new(ObjectNumber::new(5), ObjectNumber::new(6));
    m.add_title("Q(1)").unwrap();
    m.add_producer("rusty_pdf").unwrap();
    m.xmp_add("<dc:format>application/pdf</dc:format>");
    let mut xref = Vec::new();
    let mut file = b"%PDF".to_vec();
    m.serialize(Version::V1_7, &mut xref, &mut file).unwrap();
    let packet = format!("{}<dc:format>application/pdf</dc:format>{}", XMP_HEADER, XMP_FOOTER);
    let info = "5 0 obj <<\n/Title (Q\\(1\\))\n/Producer (rusty_pdf)\n>>\nendobj\n\n";
    let expected = format!(
        "%PDF{info}6 0 obj <<\n/Length {}\n>>\n\nstream\n{packet}endstream\nendobj\n\n",
        packet.len()
    );
    assert_eq!(String::from_utf8(file).unwrap(), expected);
    assert_eq!(xref.len(), 2);
    assert_eq!(xref[0].offset, 4);
    assert_eq!(xref[1].offset, 4 + info.len());
}
