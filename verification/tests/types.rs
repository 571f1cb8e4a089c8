use rusty_pdf::annotation_support::{
    AnnotationFlags, BorderStyle, CaptionPosition, GuidelineStyle, HighlightingMode, Intent,
    OutputIntentSubtype, Poly, Quadding, Shape, TextIcon, TextMarkupType,
};
use rusty_pdf::body::Body;
use rusty_pdf::color::ColorSpace;
use rusty_pdf::date::{Date, OffsetCode};
use rusty_pdf::error::PdfError;
use rusty_pdf::features::Feature;
use rusty_pdf::form::Form;
use rusty_pdf::function::{FunctionType, OrderType};
use rusty_pdf::metadata_ops::XmpType;
use rusty_pdf::object_ops::ObjectOps;
use rusty_pdf::objects::assign_object_number::AssignObjectNumber;
use rusty_pdf::page::ObjectId;
use rusty_pdf::page_ops::ContentsType;
use rusty_pdf::pdf_version::PdfVersion;
use rusty_pdf::shading::ShadingType;
use rusty_pdf::util::{CompressionMethod, StrokeOrFill, WindingRule};
use rusty_pdf::version::Version;
use rusty_pdf::writer::add_font_resources;

#[test]
fn flags_combine_by_or() {
    let f = AnnotationFlags::print().or(AnnotationFlags::locked());
    assert_eq!(f.bits(), 4 | 128);
    assert!(AnnotationFlags::none().is_empty());
    assert!(!f.is_empty());
    assert_eq!(AnnotationFlags::from_bits(6), AnnotationFlags::hidden().or(AnnotationFlags::print()));
    assert_eq!(f.or(f), f);
    assert_eq!(AnnotationFlags::invisible().bits(), 1);
    assert_eq!(AnnotationFlags::no_zoom().bits(), 8);
    assert_eq!(AnnotationFlags::no_rotate().bits(), 16);
    assert_eq!(AnnotationFlags::no_view().bits(), 32);
    assert_eq!(AnnotationFlags::read_only().bits(), 64);
}

#[test]
fn annotation_names() {
    assert_eq!(Intent::LineDimension.to_string(), "LineDimension");
    assert_eq!(CaptionPosition::Below.to_string(), "2");
    assert_eq!(TextMarkupType::StrikeOut.to_string(), "StrikeOut");
    assert_eq!(BorderStyle::Beveled.as_str(), "B");
    assert_eq!(TextIcon::NewParagraph.as_str(), "NewParagraph");
    assert_eq!(HighlightingMode::Push.to_pdf_string().value, "P");
    assert_eq!(HighlightingMode::NoHighlighting.to_pdf_string().value, "N");
    assert_eq!(GuidelineStyle::Dashed.as_string(), "D");
    assert_eq!(OutputIntentSubtype::GtsPdfa1.as_string(), "GTS_PDFA1");
    assert_eq!(Quadding::Right.value(), 2);
    assert_eq!(Poly::PolyLine.to_string(), "PolyLine");
    assert_eq!(Shape::Circle.to_string(), "Circle");
}

#[test]
fn date_formats_and_checks() {
    let d = Date::new(2024, 3, 9, 14, 5, 7, OffsetCode::P, 1, 30).unwrap();
    assert_eq!(d.to_pdf_string(), "D:20240309140507+01'30");
    let z = Date::new(7, 12, 31, 0, 0, 0, OffsetCode::Z, 0, 0).unwrap();
    assert_eq!(z.to_pdf_string(), "D:00071231000000Z00'00");
    assert_eq!(OffsetCode::M.to_pdf_string(), "-");
}

#[test]
fn date_errors_name_the_first_bad_field() {
    match Date::new(2024, 13, 32, 0, 0, 0, OffsetCode::Z, 0, 0) {
        Err(PdfError::InvalidArgument(m)) => assert_eq!(m, "month 13 out of range 1-12"),
        _ => panic!("expected an error"),
    }
    match Date::new(0, 1, 1, 0, 0, 0, OffsetCode::Z, 0, 0) {
        Err(PdfError::InvalidArgument(m)) => assert_eq!(m, "year 0 out of range 1-9999"),
        _ => panic!("expected an error"),
    }
    match Date::new(2000, 1, 1, 0, 0, 0, OffsetCode::Z, 12, 0) {
        Err(PdfError::InvalidArgument(m)) => assert_eq!(m, "offset_hours 12 out of range 0-11"),
        _ => panic!("expected an error"),
    }
}

#[test]
fn error_messages() {
    assert_eq!(PdfError::InvalidObjectReference(12).to_message(), "Invalid object reference: 12");
    assert_eq!(PdfError::InvalidArgument("x".to_string()).to_message(), "Invalid argument: x");
    assert_eq!(PdfError::CompressionError("c".to_string()).to_message(), "Compression error: c");
    assert_eq!(PdfError::InvalidFont("f".to_string()).to_message(), "Invalid font: f");
    assert_eq!(PdfError::InvalidFunctionSpecification.to_message(), "Invalid function specification");
    assert_eq!(PdfError::InvalidImage("i".to_string()).to_message(), "Invalid image: i");
    assert_eq!(PdfError::StructureError("s".to_string()).to_message(), "PDF structure error: s");
    assert_eq!(PdfError::SerializeError("e".to_string()).to_message(), "Serialization error: e");
    assert_eq!(PdfError::StreamError("t".to_string()).to_message(), "Stream error: t");
}

#[test]
fn versions_and_features() {
    assert_eq!(Version::default(), Version::V1_5);
    assert_eq!(Version::V1_7_3.as_str(), "1.7.3");
    assert_eq!(Version::V2_2020.as_bytes(), b"2.2020");
    assert!(Version::V1_7.at_least(Version::V1_4));
    assert!(!Version::V1_3.at_least(Version::V1_4));
    assert_eq!(Version::V1_6.rank(), 6);
    assert_eq!(Feature::Rc4Encryption.min_version(), Version::V1_3);
    assert_eq!(Feature::XmlForms.min_version(), Version::V1_6);
    assert_eq!(Feature::EmbeddedDefaultPrinterSettings.min_version(), Version::V1_7);
    assert_eq!(PdfVersion::default().as_str(), "1.7");
    assert_eq!(PdfVersion::V1_4.as_str(), "1.4");
}

#[test]
fn color_space_names() {
    assert_eq!(ColorSpace::from_string("RGB"), Some(ColorSpace::RGB));
    assert_eq!(ColorSpace::from_string("CMYK"), Some(ColorSpace::CMYK));
    assert_eq!(ColorSpace::from_string("Gray"), Some(ColorSpace::Gray));
    assert_eq!(ColorSpace::from_string("rgb"), None);
    assert_eq!(ColorSpace::Gray.as_string(), "Gray");
    for c in [ColorSpace::RGB, ColorSpace::CMYK, ColorSpace::Gray] {
        assert_eq!(ColorSpace::from_string(&c.as_string()), Some(c));
    }
}

#[test]
fn numbered_kinds() {
    assert_eq!(FunctionType::Sampled.value(), 0);
    assert_eq!(FunctionType::PostScript.value(), 4);
    assert_eq!(OrderType::CubicSpline.value(), 3);
    assert_eq!(ShadingType::Function.value(), 1);
    assert_eq!(ShadingType::TensorPatch.value(), 7);
    assert_eq!(CompressionMethod::Flate.to_string(), "/A85 /Fl");
    assert_eq!(CompressionMethod::Uncompressed.to_string(), "/A85");
    assert_ne!(WindingRule::NonZero, WindingRule::EvenOdd);
    assert_ne!(StrokeOrFill::Stroke, StrokeOrFill::Fill);
    assert_ne!(XmpType::Alt, XmpType::Sequence);
    assert_ne!(ContentsType::Empty, ContentsType::Array);
}

#[test]
fn page_object_ids() {
    let a = ObjectId::from(3u64);
    let b = ObjectId::from(4usize);
    assert_eq!(u64::from(a.clone()), 3);
    assert_eq!(ObjectId::sum(&[a, b]).to_string(), "7");
    assert_eq!(ObjectId::default().to_string(), "0");
    assert_eq!(u64::from(ObjectId::sum(&[])), 0);
}

#[test]
fn body_numbers_from_one() {
    let mut body = Body::new();
    assert_eq!(body.next_num(), 1);
    assert_eq!(body.next_num(), 2);
    assert_eq!(body.last_object_number, 2);
}

#[test]
fn font_resources_take_the_next_number() {
    let mut ops = ObjectOps::new();
    ops.next_object_number();
    let n = add_font_resources(|| ops.next_object_number().value());
    assert_eq!(n, 2);
    assert_eq!(add_font_resources(|| 17), 17);
}

struct Numbered {
    number: Option<u64>,
}

impl AssignObjectNumber for Numbered {
    fn assigned_number(&self) -> Option<u64> {
        self.number
    }

    fn set_object_number(&mut self, value: u64) {
        self.number = Some(value);
    }
}

#[test]
fn assigning_the_next_object_number() {
    let mut ops = ObjectOps::new();
    let a = Numbered { number: None }.with_next_object_number(&mut ops);
    let b = Numbered { number: None }.with_next_object_number(&mut ops);
    assert_eq!(a.number, Some(1));
    assert_eq!(b.number, Some(2));
    assert_eq!(b.assigned_number(), Some(2));
}

#[test]
fn form_type_is_added_once() {
    let form = Form::new().unwrap().with_type("XObject").unwrap();
    assert_eq!(form.dict.len(), 1);
    assert_eq!(form.dict.get("Type").unwrap().value, "XObject");
    match form.with_type("Again") {
        Err(PdfError::StructureError(m)) => assert_eq!(m, "Key 'Type' already exists"),
        _ => panic!("expected a duplicate key error"),
    }
}

#[test]
fn version_bytes_read_back_as_text() {
    for v in [Version::V1_0, Version::V1_5, Version::V1_7_3, Version::V2_2017, Version::V2_2020] {
        assert_eq!(v.as_bytes(), v.as_str().as_bytes());
        assert_eq!(std::str::from_utf8(v.as_bytes()), Ok(v.as_str()));
    }
}
