use rusty_pdf::object_number::ObjectNumber;
use rusty_pdf::object_ops::{ObjectOps, XRefEntry};
use rusty_pdf::page_ops::{ContentStream, PageFactory, PageOps, PageTree};
use rusty_pdf::version::Version;

const LETTER: &[u8] = b"[0 0 612 792]";

fn font(base: &str) -> String {
    format!("/{base}  <<\n/Type /Font\n/Subtype /Type1\n/BaseFont /{base}\n>>\n\n")
}

fn resources_entry() -> String {
    format!(
        "/Resources  <<\n/Font  <<\n{}{}{}>>\n\n>>\n\n",
        font("Helvetica"),
        font("Helvetica-Bold"),
        font("Courier")
    )
}

fn page_bytes(number: u64, contents: u64, parent: u64, content: &str) -> String {
    format!(
        "{number} 0 obj <<\n/Type /Page\n/Contents {contents} 0 R\n/Parent {parent} 0 R\n>>\nendobj\n\n\
         {contents} 0 obj <<\n/Length {}\n>>\n\nstream\n{content}endstream\nendobj\n\n",
        content.len()
    )
}

fn headers_at_offsets(file: &[u8], xref: &[XRefEntry]) {
    for e in xref {
        let header = format!("{} 0 obj", e.object_number.value());
        assert!(file[e.offset..].starts_with(header.as_bytes()), "entry of {}", e.object_number.value());
    }
}

#[test]
fn one_page_document_tree() {
    let mut ops = ObjectOps::new();
    let mut pages = PageOps::new(&mut ops, LETTER.to_vec()).unwrap();
    assert_eq!(pages.root_tree().object_number(), ObjectNumber::new(1));
    let page = PageFactory::new().new_page(&mut ops, b"BT ET".to_vec());
    assert_eq!(page.object_number(), ObjectNumber::new(2));
    assert_eq!(ops.object_number(), ObjectNumber::new(3));
    pages.root_tree_mut().add_page(page);

    let mut xref = Vec::new();
    let mut file = Vec::new();
    pages.serialize(Version::default(), &mut xref, &mut file).unwrap();

    let root = format!(
        "1 0 obj <<\n/Type /Pages\n{}/MediaBox [0 0 612 792]\n/Count 1\n/Kids [ 2 0 R ]\n>>\nendobj\n\n",
        resources_entry()
    );
    let expected = format!("{root}{}", page_bytes(2, 3, 1, "BT ET"));
    assert_eq!(String::from_utf8(file.clone()).unwrap(), expected);

    let numbers: Vec<u64> = xref.iter().map(|e| e.object_number.value()).collect();
    assert_eq!(numbers, vec![1, 2, 3]);
    assert_eq!(xref[0].offset, 0);
    assert_eq!(xref[1].offset, root.len());
    headers_at_offsets(&file, &xref);
}

#[test]
fn nested_trees_count_their_own_pages() {
    let factory = PageFactory::new();
    let mut ops = ObjectOps::new();
    let mut pages = PageOps::new(&mut ops, LETTER.to_vec()).unwrap();
    let mut first = factory.new_tree(&mut ops);
    let mut second = factory.new_tree(&mut ops);
    assert_eq!(first.object_number(), ObjectNumber::new(2));
    assert_eq!(second.object_number(), ObjectNumber::new(3));
    first.add_page(factory.new_page(&mut ops, b"A".to_vec()));
    second.add_page(factory.new_page(&mut ops, b"B".to_vec()));
    second.add_page(factory.new_page(&mut ops, b"C".to_vec()));
    let root = pages.root_tree_mut();
    root.add_page(factory.new_page(&mut ops, b"D".to_vec()));
    root.add_tree(first).unwrap();
    root.add_tree(second).unwrap();

    let mut xref = Vec::new();
    let mut file = Vec::new();
    pages.serialize(Version::default(), &mut xref, &mut file).unwrap();

    let expected = format!(
        "1 0 obj <<\n/Type /Pages\n{}/MediaBox [0 0 612 792]\n/Count 4\n/Kids [ 10 0 R 2 0 R 3 0 R ]\n>>\nendobj\n\n\
         {}\
         2 0 obj <<\n/Type /Pages\n/Parent 1 0 R\n/Count 1\n/Kids [ 4 0 R ]\n>>\nendobj\n\n\
         {}\
         3 0 obj <<\n/Type /Pages\n/Parent 1 0 R\n/Count 2\n/Kids [ 6 0 R 8 0 R ]\n>>\nendobj\n\n\
         {}{}",
        resources_entry(),
        page_bytes(10, 11, 1, "D"),
        page_bytes(4, 5, 2, "A"),
        page_bytes(6, 7, 3, "B"),
        page_bytes(8, 9, 3, "C"),
    );
    assert_eq!(String::from_utf8(file.clone()).unwrap(), expected);
    let numbers: Vec<u64> = xref.iter().map(|e| e.object_number.value()).collect();
    assert_eq!(numbers, vec![1, 10, 11, 2, 4, 5, 3, 6, 7, 8, 9]);
    headers_at_offsets(&file, &xref);
}

#[test]
fn default_page_size_is_replaced() {
    let mut ops = ObjectOps::new();
    let mut pages = PageOps::new(&mut ops, LETTER.to_vec()).unwrap();
    pages.set_default_page_size(b"[0 0 595 842]".to_vec());
    let mut xref = Vec::new();
    let mut file = Vec::new();
    pages.serialize(Version::default(), &mut xref, &mut file).unwrap();
    let text = String::from_utf8(file).unwrap();
    assert!(text.contains("/MediaBox [0 0 595 842]\n/Count 0\n/Kids [ ]\n"));
    assert!(!text.contains("612"));
}

#[test]
fn page_size_and_tree_size_entries() {
    let mut ops = ObjectOps::new();
    let factory = PageFactory::new();
    let page = factory.new_page(&mut ops, b"q Q".to_vec()).with_page_size(b"[0 0 100 100]".to_vec());
    let mut xref = Vec::new();
    let mut file = Vec::new();
    page.serialize(Version::default(), &mut xref, &mut file).unwrap();
    assert_eq!(
        String::from_utf8(file).unwrap(),
        "1 0 obj <<\n/Type /Page\n/Contents 2 0 R\n/MediaBox [0 0 100 100]\n>>\nendobj\n\n\
         2 0 obj <<\n/Length 3\n>>\n\nstream\nq Qendstream\nendobj\n\n"
    );
    assert_eq!(xref.len(), 2);

    let tree: PageTree = factory.new_tree(&mut ops).with_default_page_size(b"[0 0 1 1]".to_vec());
    assert_eq!(tree.object_number(), ObjectNumber::new(3));
    PageTree::add_resources();
}

#[test]
fn content_stream_object() {
    let stream = ContentStream::new(ObjectNumber::new(7), b"0 0 m 10 10 l S".to_vec());
    let mut xref = Vec::new();
    let mut file = b"%".to_vec();
    stream.serialize(&mut xref, &mut file).unwrap();
    assert_eq!(
        String::from_utf8(file).unwrap(),
        "%7 0 obj <<\n/Length 15\n>>\n\nstream\n0 0 m 10 10 l Sendstream\nendobj\n\n"
    );
    assert_eq!(xref[0].offset, 1);
    assert_eq!(xref[0].object_number, ObjectNumber::new(7));
}

#[test]
fn a_second_write_keeps_counts_and_kids() {
    let mut ops = ObjectOps::new();
    let mut pages = PageOps::new(&mut ops, LETTER.to_vec()).unwrap();
    let mut xref = Vec::new();
    let mut first = Vec::new();
    pages.serialize(Version::default(), &mut xref, &mut first).unwrap();
    let page = PageFactory::new().new_page(&mut ops, b"x".to_vec());
    pages.root_tree_mut().add_page(page);
    let mut second = Vec::new();
    pages.serialize(Version::default(), &mut xref, &mut second).unwrap();
    let text = String::from_utf8(second).unwrap();
    assert!(text.starts_with(&String::from_utf8(first).unwrap()[..40]));
    assert!(text.contains("/Count 0\n/Kids [ ]\n"));
}
