use rusty_pdf::object::{Object, ObjectStatus, PdfMetadata, PdfObject};
use rusty_pdf::object_number::ObjectNumber;
use rusty_pdf::object_ops::{Encode, ObjectOps};
use rusty_pdf::objects::boolean::PdfBooleanObject as OldBoolean;
use rusty_pdf::objects::indirect::HostType;
use rusty_pdf::objects::metadata::{Generation, PdfMetadata as ObjectMetadata};
use rusty_pdf::objects::name::PdfNameObject as OldName;
use rusty_pdf::objects::null::PdfNullObject as OldNull;
use rusty_pdf::objects::pdf_boolean::PdfBooleanObject;
use rusty_pdf::objects::pdf_array::PdfArrayObject;
use rusty_pdf::objects::pdf_name::PdfNameObject;
use rusty_pdf::objects::pdf_null::PdfNullObject;
use rusty_pdf::objects::pdf_object::{Indirect, ObjectId, SerialLocation};
use rusty_pdf::objects::pdf_reference::PdfReferenceObject;
use rusty_pdf::objects::pdf_string::PdfStringObject;
use rusty_pdf::objects::reference::PdfReferenceObject as OldReference;
use rusty_pdf::objects::string::PdfStringObject as OldString;
use rusty_pdf::version::Version;

#[test]
fn object_ops_encode_true() {
    let obj = PdfBooleanObject::new(true);
    assert_eq!(obj.encode(Version::V1_5).expect("REASON"), b"true");
}

#[test]
fn object_ops_encode_false() {
    let obj = PdfBooleanObject::new(false);
    assert_eq!(obj.encode(Version::V1_5).expect("REASON"), b"false");
}

#[test]
fn object_ops_encode_after_set() {
    let mut obj = PdfBooleanObject::new(true);
    obj.set(false);
    assert_eq!(obj.encode(Version::V1_5).expect("REASON"), b"false");
}

#[test]
fn boolean_encode_true() {
    let obj = OldBoolean::new(true);
    assert_eq!(obj.encode().unwrap(), b"true");
}

#[test]
fn boolean_encode_false() {
    let obj = OldBoolean::new(false);
    assert_eq!(obj.encode().unwrap(), b"false");
}

#[test]
fn boolean_encode_after_set() {
    let mut obj = OldBoolean::new(true);
    obj.set(false);
    assert_eq!(obj.encode().unwrap(), b"false");
}

#[test]
fn name_encode_simple_name() {
    let obj = OldName::new("Type");
    assert_eq!(obj.encode().unwrap(), b"/Type");
}

#[test]
fn name_encode_longer_name() {
    let obj = OldName::new("FlateDecode");
    assert_eq!(obj.encode().unwrap(), b"/FlateDecode");
}

#[test]
fn name_encode_empty_name() {
    let obj = OldName::new("");
    assert_eq!(obj.encode().unwrap(), b"/");
}

#[test]
fn null_encode_null() {
    let obj = OldNull::new();
    assert_eq!(obj.encode().unwrap(), b"");
}

#[test]
fn pdf_name_encode_simple_name() {
    let obj = PdfNameObject::new("Type");
    assert_eq!(obj.encode(Version::V1_5).expect("REASON").to_vec(), b"/Type");
}

#[test]
fn pdf_name_encode_longer_name() {
    let obj = PdfNameObject::new("FlateDecode");
    assert_eq!(obj.encode(Version::V1_5).expect("REASON").to_vec(), b"/FlateDecode");
}

#[test]
fn pdf_name_encode_empty_name() {
    let obj = PdfNameObject::new("");
    assert_eq!(obj.encode(Version::V1_5).expect("REASON").to_vec(), b"/");
}

#[test]
fn pdf_null_encode_null() {
    let obj = PdfNullObject::new();
    assert_eq!(obj.encode(Version::V1_5).expect("REASON"), b"null");
}

#[test]
fn encode_reference() {
    let obj = PdfReferenceObject::new(ObjectNumber::new(5));
    assert_eq!(obj.encode(Version::V1_5).expect("Reason"), b"5 0 R");
}

#[test]
fn encode_reference_object_one() {
    let obj = PdfReferenceObject::new(ObjectNumber::new(1));
    assert_eq!(obj.encode(Version::V1_5).expect("Reason"), b"1 0 R");
}

#[test]
fn encode_reference_large_number() {
    let obj = PdfReferenceObject::new(ObjectNumber::new(999));
    assert_eq!(obj.encode(Version::V1_5).expect("Reason"), b"999 0 R");
}

#[test]
fn pdf_string_encode_simple_string() {
    let obj = PdfStringObject::new("Hello, World!");
    assert_eq!(obj.encode().unwrap(), b"Hello, World!");
}

#[test]
fn pdf_string_encode_empty_string() {
    let obj = PdfStringObject::new("");
    assert_eq!(obj.encode().unwrap(), b"");
}

#[test]
fn pdf_string_encode_string_with_newline() {
    let obj = PdfStringObject::new("line1\nline2");
    assert_eq!(obj.encode().unwrap(), b"line1\nline2");
}

#[test]
fn string_encode_simple_string() {
    let obj = OldString::new("Hello, World!");
    assert_eq!(obj.encode().unwrap(), b"Hello, World!");
}

#[test]
fn string_encode_empty_string() {
    let obj = OldString::new("");
    assert_eq!(obj.encode().unwrap(), b"");
}

#[test]
fn string_encode_string_with_newline() {
    let obj = OldString::new("line1\nline2");
    assert_eq!(obj.encode().unwrap(), b"line1\nline2");
}

#[test]
fn pdf_name_escapes_delimiters_and_hash() {
    let obj = PdfNameObject::new("A B#C");
    assert_eq!(obj.encode(Version::V1_5).unwrap(), b"/A#20B#23C");
    let raw = PdfNameObject::from_bytes(&[0x00, 0x7F, 0x41]);
    assert_eq!(raw.encode(Version::V1_5).unwrap(), b"/#00#7FA");
}

#[test]
fn reference_in_object_stream_has_generation_zero() {
    let mut obj = PdfReferenceObject::new(ObjectNumber::new(12));
    obj.host_type = rusty_pdf::objects::pdf_reference::HostType::Stream { stream_obj_num: 3 };
    assert_eq!(obj.encode(Version::V1_5).unwrap(), b"12 0 R");
    obj.host_type = rusty_pdf::objects::pdf_reference::HostType::Standard { generation_number: 7 };
    assert_eq!(obj.encode(Version::V1_5).unwrap(), b"12 7 R");
}

#[test]
fn old_reference_serialise() {
    let r = OldReference::new(42);
    assert_eq!(r.serialise().unwrap(), b"42 0 R");
    let mut s = OldReference::new(8);
    s.host_type = HostType::ObjectStream { stream_obj_num: 2 };
    assert_eq!(s.serialise().unwrap(), b"8 0 R");
}

#[test]
fn old_objects_keep_numbers() {
    let b = OldBoolean::new(true).with_object_number(4).with_generation_number(1);
    assert_eq!(b.object_number, Some(4));
    assert_eq!(b.generation_number, Some(1));
    assert_eq!(b.encode().unwrap(), b"true");
    let s = OldString::new("x").with_object_number(9);
    assert_eq!(s.object_number, Some(9));
    assert_eq!(s.generation_number, None);
}

#[test]
fn object_indirect_and_reference() {
    let mut obj = Object::new();
    assert_eq!(obj.metadata().status, ObjectStatus::Free);
    assert_eq!(obj.indirect(), b"0 0 obj\n\nendobj".to_vec());
    obj.metadata_mut().number = Some(7);
    obj.metadata_mut().generation = 2;
    assert_eq!(obj.indirect(), b"7 2 obj\n\nendobj".to_vec());
    assert_eq!(obj.reference(), b"7 2 R".to_vec());
    assert!(!obj.compressible());
    obj.metadata_mut().generation = 0;
    assert!(obj.compressible());
    assert_eq!(obj.data(), Vec::<u8>::new());
}

#[test]
fn metadata_constructors() {
    let m = PdfMetadata::new();
    assert_eq!(m.number, None);
    assert_eq!(m.offset, 0);
    assert_eq!(m.generation, 0);
    assert_eq!(m.status, ObjectStatus::InUse);
    assert_eq!(PdfMetadata::new_free().status, ObjectStatus::Free);
    assert_eq!(ObjectStatus::Free.as_char(), 'f');
    assert_eq!(ObjectStatus::InUse.as_char(), 'n');
}

#[test]
fn object_metadata_and_generation() {
    let m = ObjectMetadata::new();
    assert_eq!(m.object_number, None);
    assert_eq!(m.generation_number, Generation::Normal);
    assert_eq!(ObjectMetadata::new_free().status, rusty_pdf::objects::metadata::ObjectStatus::Free);
    assert_eq!(Generation::Root.as_u16(), 65535);
    assert_eq!(Generation::Normal.as_u16(), 0);
    assert_eq!(rusty_pdf::objects::metadata::ObjectStatus::default(), rusty_pdf::objects::metadata::ObjectStatus::InUse);
}

#[test]
fn serial_location_and_ids() {
    let l = SerialLocation::default();
    assert_eq!(l.offset, 0);
    assert_eq!(l.status, rusty_pdf::objects::metadata::ObjectStatus::InUse);
    let id = ObjectId { number: 3, generation: Generation::Normal };
    assert_eq!(id.clone(), id);
    assert!(matches!(Indirect::IfReferenced, Indirect::IfReferenced));
}

#[test]
fn object_numbers_increase_by_one() {
    let mut ops = ObjectOps::new();
    assert_eq!(ops.object_number(), ObjectNumber::new(0));
    assert_eq!(ops.next_object_number(), ObjectNumber::new(1));
    assert_eq!(ops.next_object_number(), ObjectNumber::new(2));
    assert_eq!(ops.object_number().value(), 2);
    assert_eq!(ObjectNumber::new(41).next(), ObjectNumber::new(42));
}

#[test]
fn array_elements_by_index() {
    let mut arr: PdfArrayObject<PdfBooleanObject> = PdfArrayObject::new();
    arr.push(PdfBooleanObject::new(true));
    arr.push(PdfBooleanObject::new(false));
    assert!(arr.get(0).unwrap().value);
    assert!(!arr.get(1).unwrap().value);
    assert!(arr.get(2).is_none());
}
