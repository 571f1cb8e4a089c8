use rusty_pdf::error::PdfError;
use rusty_pdf::object_number::ObjectNumber;
use rusty_pdf::object_ops::{indirect_xref_entry, try_indirect_end, try_indirect_start, Encode, Serialize, XRefEntry};
use rusty_pdf::objects::metadata::{Generation, ObjectStatus};
use rusty_pdf::objects::pdf_array::PdfArrayObject;
use rusty_pdf::objects::pdf_boolean::PdfBooleanObject;
use rusty_pdf::objects::pdf_dictionary::PdfDictionaryObject;
use rusty_pdf::objects::pdf_name::PdfNameObject;
use rusty_pdf::objects::pdf_reference::PdfReferenceObject;
use rusty_pdf::version::Version;

#[test]
fn test_dictionary_methods() {
    let mut dict = PdfDictionaryObject::new();
    assert!(dict.is_empty());
    assert_eq!(dict.len(), 0);

    dict.add("Key1", PdfNameObject::new("Value1")).unwrap();
    assert!(!dict.is_empty());
    assert_eq!(dict.len(), 1);
    assert!(dict.contains_key("Key1"));
    assert!(!dict.contains_key("Key2"));

    dict.add("Key2", PdfNameObject::new("Value2")).unwrap();
    assert_eq!(dict.len(), 2);
    assert!(dict.contains_key("Key2"));
}

fn message(e: PdfError) -> String {
    match e {
        PdfError::StructureError(m) => m,
        _ => panic!("expected a structure error"),
    }
}

#[test]
fn dictionary_add_refuses_duplicates() {
    let mut dict = PdfDictionaryObject::new();
    dict.add("A", PdfBooleanObject::new(true)).unwrap();
    let err = dict.add("A", PdfBooleanObject::new(false)).unwrap_err();
    assert_eq!(message(err), "Key 'A' already exists");
    assert_eq!(dict.len(), 1);
    assert!(dict.get("A").unwrap().value);
}

#[test]
fn dictionary_update_del_and_get() {
    let mut dict = PdfDictionaryObject::new();
    dict.add("A", PdfBooleanObject::new(true)).unwrap();
    dict.add("B", PdfBooleanObject::new(true)).unwrap();
    dict.update("A", PdfBooleanObject::new(false)).unwrap();
    assert!(!dict.get("A").unwrap().value);
    assert_eq!(message(dict.update("C", PdfBooleanObject::new(false)).unwrap_err()), "Key 'C' not found");
    dict.update_or_add("C", PdfBooleanObject::new(false));
    dict.update_or_add("B", PdfBooleanObject::new(false));
    assert_eq!(dict.len(), 3);
    assert!(!dict.get("B").unwrap().value);
    dict.del("A").unwrap();
    assert!(!dict.contains_key("A"));
    assert!(dict.get("A").is_none());
    assert_eq!(dict.len(), 2);
    assert_eq!(message(dict.del("A").unwrap_err()), "Key 'A' not found");
}

#[test]
fn dictionary_serialises_entries_in_order() {
    let mut dict = PdfDictionaryObject::new();
    dict.add("Type", PdfNameObject::new("Page")).unwrap();
    dict.add("Sub Type", PdfNameObject::new("X#")).unwrap();
    let mut xref = Vec::new();
    let mut file = b"%PDF".to_vec();
    dict.serialize(Version::V1_5, &mut xref, &mut file).unwrap();
    assert_eq!(file, b"%PDF <<\n/Type /Page\n/Sub#20Type /X#23\n>>\n".to_vec());
    assert!(xref.is_empty());
    assert_eq!(dict.encode(Version::V1_5).unwrap(), Vec::<u8>::new());
}

#[test]
fn indirect_dictionary_records_its_offset() {
    let mut inner = PdfDictionaryObject::new().with_object_number(ObjectNumber::new(7));
    inner.add("On", PdfBooleanObject::new(true)).unwrap();
    let mut outer = PdfDictionaryObject::new().with_object_number(ObjectNumber::new(3));
    outer.add("Inner", inner).unwrap();
    let mut xref = Vec::new();
    let mut file = b"xx".to_vec();
    outer.serialize(Version::V1_5, &mut xref, &mut file).unwrap();
    let text = b"xx3 0 obj <<\n/Inner 7 0 obj <<\n/On true\n>>\nendobj\n\n\n>>\nendobj\n\n".to_vec();
    assert_eq!(file, text);
    assert_eq!(xref.len(), 2);
    assert_eq!(xref[0], indirect_xref_entry(ObjectNumber::new(3), 2));
    assert_eq!(xref[1].object_number, ObjectNumber::new(7));
    assert_eq!(xref[1].offset, 20);
    assert_eq!(&file[20..27], b"7 0 obj");
    assert_eq!(xref[1].status, ObjectStatus::InUse);
    assert_eq!(xref[1].generation, Generation::Normal);
}

#[test]
fn arrays_serialise_elements() {
    let mut arr = PdfArrayObject::new();
    arr.push(PdfReferenceObject::new(ObjectNumber::new(4)));
    arr.push(PdfReferenceObject::new(ObjectNumber::new(9)));
    assert_eq!(arr.len(), 2);
    let mut xref: Vec<XRefEntry> = Vec::new();
    let mut file = Vec::new();
    arr.serialize(Version::V1_5, &mut xref, &mut file).unwrap();
    assert_eq!(file, b"[ 4 0 R 9 0 R ]".to_vec());
    let empty: PdfArrayObject<PdfBooleanObject> = PdfArrayObject::new().with_object_number(ObjectNumber::new(1));
    let mut file = Vec::new();
    empty.serialize(Version::V1_5, &mut xref, &mut file).unwrap();
    assert_eq!(file, b"1 0 obj[ ]endobj\n\n".to_vec());
    assert_eq!(xref, vec![indirect_xref_entry(ObjectNumber::new(1), 0)]);
}

#[test]
fn indirect_markers() {
    let mut xref = Vec::new();
    let mut file = Vec::new();
    try_indirect_start(&mut xref, &mut file, None).unwrap();
    try_indirect_end(&mut file, None).unwrap();
    assert!(file.is_empty() && xref.is_empty());
    try_indirect_start(&mut xref, &mut file, Some(ObjectNumber::new(12))).unwrap();
    try_indirect_end(&mut file, Some(ObjectNumber::new(12))).unwrap();
    assert_eq!(file, b"12 0 objendobj\n\n".to_vec());
    assert_eq!(xref.len(), 1);
}

#[test]
fn serialize_with_uses_the_given_value_bytes() {
    let mut dict = PdfDictionaryObject::new();
    dict.add("Count", 3u32).unwrap();
    dict.add("Size", 10u32).unwrap();
    let mut xref = Vec::new();
    let mut file = Vec::new();
    dict.serialize_with(|v| v.to_string().into_bytes(), &mut xref, &mut file).unwrap();
    assert_eq!(file, b" <<\n/Count 3\n/Size 10\n>>\n".to_vec());
    let mut arr = PdfArrayObject::new().with_object_number(ObjectNumber::new(2));
    arr.push(1u8);
    arr.push(2u8);
    let mut file = Vec::new();
    arr.serialize_with(|v| vec![b'0' + *v], &mut xref, &mut file).unwrap();
    assert_eq!(file, b"2 0 obj[ 1 2 ]endobj\n\n".to_vec());
    assert_eq!(xref, vec![indirect_xref_entry(ObjectNumber::new(2), 0)]);
}

#[test]
fn cloned_dictionary_keeps_entries() {
    let mut dict = PdfDictionaryObject::new().with_object_number(ObjectNumber::new(8));
    dict.add("A", PdfNameObject::new("x")).unwrap();
    let copy = dict.clone();
    assert_eq!(copy.len(), 1);
    assert_eq!(copy.object_number(), Some(ObjectNumber::new(8)));
    assert!(copy.get("A").unwrap() == &PdfNameObject::new("x"));
}

#[test]
fn dictionary_value_changed_in_place() {
    let mut dict: PdfDictionaryObject<PdfNameObject> = PdfDictionaryObject::new();
    dict.add("First", PdfNameObject::new("A")).unwrap();
    dict.add("Second", PdfNameObject::new("B")).unwrap();
    *dict.get_mut("First").unwrap() = PdfNameObject::new("C");
    assert!(dict.get_mut("Third").is_none());
    assert_eq!(dict.len(), 2);
    assert_eq!(dict.get("First").unwrap().value, b"C".to_vec());
    assert_eq!(dict.get("Second").unwrap().value, b"B".to_vec());
    let mut xref = Vec::new();
    let mut file = Vec::new();
    dict.serialize(Version::default(), &mut xref, &mut file).unwrap();
    assert_eq!(file, b" <<\n/First /C\n/Second /B\n>>\n".to_vec());
}
