//! The page tree: page tree nodes and pages as indirect dictionaries, each page with its
//! content stream; page counts and the references to kids are filled in when the tree is
//! written.
use vstd::prelude::*;
use vstd::utf8::encode_utf8;

use crate::decimal::{decimal_bytes, push_decimal};
use crate::error::PdfError;
use crate::fonts::{is_standard_fonts, Fonts};
use crate::keyed::{has_key, keyed_add, keyed_insert, keyed_map, Keyed};
use crate::object_number::ObjectNumber;
use crate::object_ops::{
    in_use_entry, indirect_end_bytes, indirect_start_bytes, indirect_start_xref, lemma_points_at_objects_concat,
    lemma_points_at_objects_extend, points_at_objects, try_indirect_end, try_indirect_start, write_bytes, Encode,
    ObjectOps, Serialize, XRefEntry,
};
use crate::objects::pdf_array::PdfArrayObject;
use crate::objects::pdf_dictionary::PdfDictionaryObject;
use crate::objects::pdf_name::PdfNameObject;
use crate::objects::pdf_reference::{reference_to, PdfReferenceObject};
use crate::objects::stream::stream_frame;
use crate::version::Version;

verus! {

/// What the /Contents entry of a page holds.
#[derive(Debug, Clone, Copy, PartialEq, Eq, Structural)]
pub enum ContentsType {
    /// No contents.
    Empty,
    Stream,
    Array,
}

/// A value of a page or page tree dictionary.
pub enum PageValue {
    /// A name, such as the `/Type` of the dictionary.
    Name(PdfNameObject),
    /// A reference to an indirect object, such as `/Parent` or `/Contents`.
    Reference(PdfReferenceObject),
    /// A non-negative integer, such as `/Count`.
    Integer(u64),
    /// An array of references, such as `/Kids`.
    References(PdfArrayObject<PdfReferenceObject>),
    /// A resource dictionary: categories, each a dictionary of named resources.
    Resources(PdfDictionaryObject<PdfDictionaryObject<PdfDictionaryObject<PdfNameObject>>>),
    /// A rectangle already written by the caller, such as `/MediaBox`, whose coordinates
    /// are real numbers.
    Rectangle(Vec<u8>),
}

impl Encode for PageValue {
    open spec fn encodable(&self) -> bool {
        match self {
            PageValue::Name(n) => n.encodable(),
            PageValue::Reference(r) => r.encodable(),
            PageValue::Integer(_) => true,
            PageValue::References(a) => a.encodable(),
            PageValue::Resources(d) => d.encodable(),
            PageValue::Rectangle(_) => true,
        }
    }

    /// An integer in decimal, a rectangle as given, any other value as its object.
    open spec fn encoding(&self, version: Version) -> Seq<u8> {
        match self {
            PageValue::Name(n) => n.encoding(version),
            PageValue::Reference(r) => r.encoding(version),
            PageValue::Integer(i) => decimal_bytes(*i as nat),
            PageValue::References(a) => a.encoding(version),
            PageValue::Resources(d) => d.encoding(version),
            PageValue::Rectangle(b) => b@,
        }
    }

    fn encode(&self, version: Version) -> (r: Result<Vec<u8>, PdfError>) {
        match self {
            PageValue::Name(n) => n.encode(version),
            PageValue::Reference(r) => r.encode(version),
            PageValue::Integer(i) => {
                let mut v: Vec<u8> = Vec::new();
                push_decimal(&mut v, *i);
                assert(v@ =~= decimal_bytes(*i as nat));
                Ok(v)
            },
            PageValue::References(a) => a.encode(version),
            PageValue::Resources(d) => d.encode(version),
            PageValue::Rectangle(b) => Ok(vstd::slice::slice_to_vec(b.as_slice())),
        }
    }
}

impl Serialize for PageValue {
    open spec fn serialization(&self, version: Version) -> Seq<u8> {
        match self {
            PageValue::Name(n) => n.serialization(version),
            PageValue::Reference(r) => r.serialization(version),
            PageValue::Integer(i) => decimal_bytes(*i as nat),
            PageValue::References(a) => a.serialization(version),
            PageValue::Resources(d) => d.serialization(version),
            PageValue::Rectangle(b) => b@,
        }
    }

    open spec fn xref_entries(&self, version: Version, start: nat) -> Seq<XRefEntry> {
        match self {
            PageValue::Name(n) => n.xref_entries(version, start),
            PageValue::Reference(r) => r.xref_entries(version, start),
            PageValue::Integer(_) => Seq::empty(),
            PageValue::References(a) => a.xref_entries(version, start),
            PageValue::Resources(d) => d.xref_entries(version, start),
            PageValue::Rectangle(_) => Seq::empty(),
        }
    }

    fn serialize(&self, version: Version, xref: &mut Vec<XRefEntry>, file: &mut Vec<u8>) -> (r: Result<(), PdfError>) {
        match self {
            PageValue::Name(n) => n.serialize(version, xref, file),
            PageValue::Reference(r) => r.serialize(version, xref, file),
            PageValue::References(a) => a.serialize(version, xref, file),
            PageValue::Resources(d) => d.serialize(version, xref, file),
            _ => {
                let v = match self.encode(version) {
                    Ok(v) => v,
                    Err(_) => Vec::new(),
                };
                write_bytes(file, v);
                assert(xref@ =~= old(xref)@ + Seq::<XRefEntry>::empty());
                Ok(())
            },
        }
    }
}

/// ` <<`, a newline, `/Length `, the length in decimal, a newline and `>>`: the dictionary
/// of a content stream.
pub open spec fn length_dict_bytes(length: nat) -> Seq<u8> {
    seq![32u8, 60u8, 60u8, 10u8, 47u8, 76u8, 101u8, 110u8, 103u8, 116u8, 104u8, 32u8]
        + decimal_bytes(length) + seq![10u8, 62u8, 62u8, 10u8]
}

/// A content stream written as an indirect object: `<number> 0 obj`, its dictionary with
/// the length of the content, `stream`, the content, `endstream` and `endobj`.
pub open spec fn content_stream_bytes(object_number: ObjectNumber, content: Seq<u8>) -> Seq<u8> {
    indirect_start_bytes(Some(object_number)) + length_dict_bytes(content.len()) + stream_frame(content)
        + indirect_end_bytes(Some(object_number))
}

/// The content stream of a page: an indirect stream object of uncompressed content.
pub struct ContentStream {
    pub object_number: ObjectNumber,
    pub content: Vec<u8>,
}

impl ContentStream {
    pub fn new(object_number: ObjectNumber, content: Vec<u8>) -> (s: Self)
        ensures
            s.object_number == object_number,
            s.content@ == content@,
    {
        ContentStream { object_number, content }
    }

    /// Appends the stream object to `file` and its cross-reference entry to `xref`.
    pub fn serialize(&self, xref: &mut Vec<XRefEntry>, file: &mut Vec<u8>) -> (r: Result<(), PdfError>)
        ensures
            r is Ok,
            final(file)@ == old(file)@ + content_stream_bytes(self.object_number, self.content@),
            final(xref)@ == old(xref)@ + seq![in_use_entry(self.object_number, old(file)@.len())],
            points_at_objects(final(file)@, seq![in_use_entry(self.object_number, old(file)@.len())]),
    {
        let ghost f0 = file@;
        let _ = try_indirect_start(xref, file, Some(self.object_number));
        let ghost f1 = file@;
        let mut body: Vec<u8> = Vec::new();
        body.push(32u8);
        body.push(60u8);
        body.push(60u8);
        body.push(10u8);
        body.push(47u8);
        body.push(76u8);
        body.push(101u8);
        body.push(110u8);
        body.push(103u8);
        body.push(116u8);
        body.push(104u8);
        body.push(32u8);
        push_decimal(&mut body, self.content.len() as u64);
        body.push(10u8);
        body.push(62u8);
        body.push(62u8);
        body.push(10u8);
        body.push(10u8);
        body.push(115u8);
        body.push(116u8);
        body.push(114u8);
        body.push(101u8);
        body.push(97u8);
        body.push(109u8);
        body.push(10u8);
        let mut content = vstd::slice::slice_to_vec(self.content.as_slice());
        body.append(&mut content);
        body.push(101u8);
        body.push(110u8);
        body.push(100u8);
        body.push(115u8);
        body.push(116u8);
        body.push(114u8);
        body.push(101u8);
        body.push(97u8);
        body.push(109u8);
        body.push(10u8);
        assert(body@ =~= length_dict_bytes(self.content@.len()) + stream_frame(self.content@));
        write_bytes(file, body);
        let _ = try_indirect_end(file, Some(self.object_number));
        assert(file@ =~= f0 + content_stream_bytes(self.object_number, self.content@));
        proof {
            let entries = indirect_start_xref(Some(self.object_number), f0.len());
            lemma_points_at_objects_extend(f1, file@.subrange(f1.len() as int, file@.len() as int), entries);
            assert(f1 + file@.subrange(f1.len() as int, file@.len() as int) =~= file@);
            assert(entries =~= seq![in_use_entry(self.object_number, f0.len())]);
        }
        Ok(())
    }
}

/// The value is a name of the UTF-8 bytes of `s`.
pub open spec fn is_name(v: PageValue, s: Seq<char>) -> bool {
    v matches PageValue::Name(n) && n.value@ == encode_utf8(s)
}

/// A page: its dictionary, an indirect object, and its content stream.
pub struct Page {
    dictionary: PdfDictionaryObject<PageValue>,
    stream: ContentStream,
    content_type: ContentsType,
}

impl Page {
    #[verifier::type_invariant]
    closed spec fn inv(&self) -> bool {
        &&& self.dictionary.spec_object_number() is Some
        &&& self.dictionary.encodable()
    }

    /// The entries of the page dictionary.
    pub closed spec fn entries(&self) -> Keyed<PageValue> {
        self.dictionary@
    }

    /// The object number of the page dictionary.
    pub closed spec fn number(&self) -> ObjectNumber {
        self.dictionary.spec_object_number().unwrap()
    }

    /// The page's content stream.
    pub closed spec fn content_stream(&self) -> ContentStream {
        self.stream
    }

    /// The page dictionary as it is written.
    pub closed spec fn dictionary_bytes(&self, version: Version) -> Seq<u8> {
        self.dictionary.serialization(version)
    }

    /// The cross-reference entries of the page dictionary written at `start`.
    pub closed spec fn dictionary_xref(&self, version: Version, start: nat) -> Seq<XRefEntry> {
        self.dictionary.xref_entries(version, start)
    }

    /// A page with the next two object numbers of `object_ops`, the first for its
    /// dictionary, `/Type /Page` with `/Contents` referring to the second, the number of its
    /// content stream of `content`.
    fn new(object_ops: &mut ObjectOps, content: Vec<u8>) -> (p: Self)
        requires
            old(object_ops).last() + 2 <= u64::MAX,
        ensures
            final(object_ops).last() == old(object_ops).last() + 2,
            p.number().0 == old(object_ops).last() + 1,
            p.content_stream().object_number.0 == old(object_ops).last() + 2,
            p.content_stream().content@ == content@,
            p.entries().len() == 2,
            p.entries()[0].0 == "Type"@ && is_name(p.entries()[0].1, "Page"@),
            p.entries()[1] == ("Contents"@, PageValue::Reference(reference_to(p.content_stream().object_number))),
    {
        let object_number = object_ops.next_object_number();
        let stream_object_number = object_ops.next_object_number();
        let mut dict = PdfDictionaryObject::new().with_object_number(object_number);
        proof {
            reveal_strlit("Type");
            reveal_strlit("Contents");
        }
        let _ = dict.add("Type", PageValue::Name(PdfNameObject::new("Page")));
        assert(dict@[0].0.len() != "Contents"@.len());
        let _ = dict.add("Contents", PageValue::Reference(PdfReferenceObject::new(stream_object_number)));
        Page {
            dictionary: dict,
            stream: ContentStream::new(stream_object_number, content),
            content_type: ContentsType::Stream,
        }
    }

    /// The page with `/MediaBox` set to the rectangle `media_box`, in place of one present.
    pub fn with_page_size(self, media_box: Vec<u8>) -> (p: Self)
        ensures
            p.entries() == keyed_insert(self.entries(), "MediaBox"@, PageValue::Rectangle(media_box)),
            p.number() == self.number(),
            p.content_stream() == self.content_stream(),
    {
        proof { use_type_invariant(&self); }
        let Page { dictionary, stream, content_type } = self;
        let mut dict = dictionary;
        dict.update_or_add("MediaBox", PageValue::Rectangle(media_box));
        assert(dict.encodable()) by {
            lemma_keyed_insert_values(self.entries(), "MediaBox"@, PageValue::Rectangle(media_box));
        }
        Page { dictionary: dict, stream, content_type }
    }

    /// Records `/Parent` as a reference to `parent`; a parent already recorded stays.
    fn set_parent(&mut self, parent: ObjectNumber)
        ensures
            final(self).entries() == keyed_add(old(self).entries(), "Parent"@, PageValue::Reference(reference_to(parent))),
            final(self).number() == old(self).number(),
            final(self).content_stream() == old(self).content_stream(),
    {
        proof { use_type_invariant(&*self); }
        let ghost pre = self.dictionary@;
        let mut dict = PdfDictionaryObject::new().with_object_number(self.object_number());
        std::mem::swap(&mut dict, &mut self.dictionary);
        let _ = dict.add("Parent", PageValue::Reference(PdfReferenceObject::new(parent)));
        assert(dict@ == keyed_add(pre, "Parent"@, PageValue::Reference(reference_to(parent))));
        self.dictionary = dict;
    }

    /// The object number of the page dictionary.
    pub fn object_number(&self) -> (n: ObjectNumber)
        ensures
            n == self.number(),
    {
        proof { use_type_invariant(self); }
        self.dictionary.object_number().unwrap()
    }

    /// Appends the page dictionary, then its content stream, to `file`, and their
    /// cross-reference entries to `xref`.
    pub fn serialize(&self, version: Version, xref: &mut Vec<XRefEntry>, file: &mut Vec<u8>) -> (r: Result<(), PdfError>)
        ensures
            r is Ok,
            final(file)@ == old(file)@ + page_bytes(*self, version),
            final(xref)@ == old(xref)@ + page_xref(*self, version, old(file)@.len()),
            points_at_objects(final(file)@, page_xref(*self, version, old(file)@.len())),
    {
        proof { use_type_invariant(self); }
        let ghost f0 = file@;
        let ghost first = self.dictionary.xref_entries(version, f0.len());
        let _ = self.dictionary.serialize(version, xref, file);
        let ghost f1 = file@;
        let _ = self.stream.serialize(xref, file);
        proof {
            let second = seq![in_use_entry(self.stream.object_number, f1.len())];
            lemma_points_at_objects_extend(f1, file@.subrange(f1.len() as int, file@.len() as int), first);
            assert(f1 + file@.subrange(f1.len() as int, file@.len() as int) =~= file@);
            lemma_points_at_objects_concat(file@, first, second);
            assert(first + second =~= page_xref(*self, version, f0.len()));
        }
        assert(file@ =~= f0 + page_bytes(*self, version));
        assert(xref@ =~= old(xref)@ + page_xref(*self, version, f0.len()));
        Ok(())
    }
}

/// A page as it is written: its dictionary, then its content stream.
pub open spec fn page_bytes(p: Page, version: Version) -> Seq<u8> {
    p.dictionary_bytes(version) + content_stream_bytes(p.content_stream().object_number, p.content_stream().content@)
}

/// The cross-reference entries of a page written at `start`: those of its dictionary, then
/// that of its content stream.
pub open spec fn page_xref(p: Page, version: Version, start: nat) -> Seq<XRefEntry> {
    p.dictionary_xref(version, start) + seq![
        in_use_entry(p.content_stream().object_number, start + p.dictionary_bytes(version).len()),
    ]
}

/// Setting a value that can be encoded keeps every value of the entries encodable.
proof fn lemma_keyed_insert_values(e: Keyed<PageValue>, k: Seq<char>, v: PageValue)
    requires
        forall|i: int| 0 <= i < e.len() ==> #[trigger] e[i].1.encodable(),
        v.encodable(),
    ensures
        forall|i: int| 0 <= i < keyed_insert(e, k, v).len() ==> #[trigger] keyed_insert(e, k, v)[i].1.encodable(),
{
}

/// A node of the page tree: its dictionary, an indirect object, its subtrees and its pages.
pub struct PageTree {
    dictionary: PdfDictionaryObject<PageValue>,
    trees: Vec<PageTree>,
    pages: Vec<Page>,
    object_number: ObjectNumber,
}

/// The pages of a tree and of all its descendants.
pub closed spec fn total_pages(t: PageTree) -> nat
    decreases t,
{
    t.pages@.len() + trees_pages(t.trees@)
}

/// The pages of the trees and of all their descendants.
pub closed spec fn trees_pages(ts: Seq<PageTree>) -> nat
    decreases ts,
{
    if ts.len() == 0 {
        0
    } else {
        trees_pages(ts.drop_last()) + total_pages(ts.last())
    }
}

impl PageTree {
    #[verifier::type_invariant]
    closed spec fn inv(&self) -> bool {
        &&& self.dictionary.spec_object_number() == Some(self.object_number)
        &&& self.dictionary.encodable()
    }

    /// The entries of the node's dictionary.
    pub closed spec fn entries(&self) -> Keyed<PageValue> {
        self.dictionary@
    }

    /// The object number of the node's dictionary.
    pub closed spec fn number(&self) -> ObjectNumber {
        self.object_number
    }

    /// The subtrees, in the order they were added.
    pub closed spec fn subtrees(&self) -> Seq<PageTree> {
        self.trees@
    }

    /// The pages directly under the node, in the order they were added.
    pub closed spec fn page_list(&self) -> Seq<Page> {
        self.pages@
    }

    /// An empty node, `/Type /Pages`, with the object number `object_number`.
    fn new(object_number: ObjectNumber) -> (t: Self)
        ensures
            t.number() == object_number,
            t.entries().len() == 1,
            t.entries()[0].0 == "Type"@ && is_name(t.entries()[0].1, "Pages"@),
            t.subtrees().len() == 0,
            t.page_list().len() == 0,
    {
        let mut dict = PdfDictionaryObject::new().with_object_number(object_number);
        let _ = dict.add("Type", PageValue::Name(PdfNameObject::new("Pages")));
        PageTree { dictionary: dict, trees: Vec::new(), pages: Vec::new(), object_number }
    }

    pub fn object_number(&self) -> (n: ObjectNumber)
        ensures
            n == self.number(),
    {
        self.object_number
    }

    /// The node with `/MediaBox` set to the rectangle `media_box`, in place of one present.
    pub fn with_default_page_size(self, media_box: Vec<u8>) -> (t: Self)
        ensures
            t.entries() == keyed_insert(self.entries(), "MediaBox"@, PageValue::Rectangle(media_box)),
            t.number() == self.number(),
            t.subtrees() == self.subtrees(),
            t.page_list() == self.page_list(),
    {
        proof { use_type_invariant(&self); }
        let PageTree { dictionary, trees, pages, object_number } = self;
        let mut dict = dictionary;
        dict.update_or_add("MediaBox", PageValue::Rectangle(media_box));
        assert(dict.encodable()) by {
            lemma_keyed_insert_values(self.entries(), "MediaBox"@, PageValue::Rectangle(media_box));
        }
        PageTree { dictionary: dict, trees, pages, object_number }
    }

    /// Sets `/MediaBox` to the rectangle `media_box`, in place of one present.
    fn update_media_box(&mut self, media_box: Vec<u8>)
        ensures
            final(self).entries() == keyed_insert(old(self).entries(), "MediaBox"@, PageValue::Rectangle(media_box)),
            final(self).number() == old(self).number(),
            final(self).subtrees() == old(self).subtrees(),
            final(self).page_list() == old(self).page_list(),
    {
        proof { use_type_invariant(&*self); }
        let ghost pre = self.dictionary@;
        let mut dict = PdfDictionaryObject::new().with_object_number(self.object_number);
        std::mem::swap(&mut dict, &mut self.dictionary);
        dict.update_or_add("MediaBox", PageValue::Rectangle(media_box));
        assert(dict.encodable()) by {
            lemma_keyed_insert_values(pre, "MediaBox"@, PageValue::Rectangle(media_box));
        }
        self.dictionary = dict;
    }

    /// Adds `tree` as the last subtree, recording `/Parent` in it as a reference to this
    /// node (a parent already recorded stays).
    pub fn add_tree(&mut self, tree: PageTree) -> (r: Result<(), PdfError>)
        ensures
            r is Ok,
            final(self).entries() == old(self).entries(),
            final(self).number() == old(self).number(),
            final(self).page_list() == old(self).page_list(),
            final(self).subtrees().len() == old(self).subtrees().len() + 1,
            final(self).subtrees().drop_last() == old(self).subtrees(),
            final(self).subtrees().last().entries()
                == keyed_add(tree.entries(), "Parent"@, PageValue::Reference(reference_to(old(self).number()))),
            final(self).subtrees().last().number() == tree.number(),
            final(self).subtrees().last().subtrees() == tree.subtrees(),
            final(self).subtrees().last().page_list() == tree.page_list(),
    {
        proof {
            use_type_invariant(&*self);
            use_type_invariant(&tree);
        }
        let PageTree { dictionary, trees, pages, object_number } = tree;
        let mut dict = dictionary;
        let ghost pre = dict@;
        let _ = dict.add("Parent", PageValue::Reference(PdfReferenceObject::new(self.object_number)));
        assert(dict@ == keyed_add(pre, "Parent"@, PageValue::Reference(reference_to(self.object_number))));
        let child = PageTree { dictionary: dict, trees, pages, object_number };
        let mut subtrees: Vec<PageTree> = Vec::new();
        std::mem::swap(&mut subtrees, &mut self.trees);
        subtrees.push(child);
        self.trees = subtrees;
        assert(self.trees@.drop_last() =~= old(self).trees@);
        Ok(())
    }

    /// Adds `page` as the last page of the node, recording `/Parent` in it as a reference
    /// to this node (a parent already recorded stays).
    pub fn add_page(&mut self, page: Page)
        ensures
            final(self).entries() == old(self).entries(),
            final(self).number() == old(self).number(),
            final(self).subtrees() == old(self).subtrees(),
            final(self).page_list().len() == old(self).page_list().len() + 1,
            final(self).page_list().drop_last() == old(self).page_list(),
            final(self).page_list().last().entries()
                == keyed_add(page.entries(), "Parent"@, PageValue::Reference(reference_to(old(self).number()))),
            final(self).page_list().last().number() == page.number(),
            final(self).page_list().last().content_stream() == page.content_stream(),
    {
        proof { use_type_invariant(&*self); }
        let mut page = page;
        page.set_parent(self.object_number);
        let mut pages: Vec<Page> = Vec::new();
        std::mem::swap(&mut pages, &mut self.pages);
        pages.push(page);
        self.pages = pages;
        assert(self.pages@.drop_last() =~= old(self).pages@);
    }

    /// Resources are not added to a node one by one: this does nothing.
    pub fn add_resources() {
    }

    /// Sets `/Count` in the node and in each of its descendants to the number of pages
    /// under it, at any depth (a count already recorded stays), and adds the node's number
    /// to the running count `descendant_page_count`.
    fn update_counts(&mut self, descendant_page_count: &mut usize)
        requires
            *old(descendant_page_count) + total_pages(*old(self)) <= usize::MAX,
        ensures
            *final(descendant_page_count) == *old(descendant_page_count) + total_pages(*old(self)),
            counts_set(*old(self), *final(self)),
        decreases *old(self),
    {
        proof { use_type_invariant(&*self); }
        let ghost orig = *old(self);
        let mut rest: Vec<PageTree> = Vec::new();
        std::mem::swap(&mut rest, &mut self.trees);
        let mut done: Vec<PageTree> = Vec::new();
        let mut own: usize = 0;
        proof { lemma_trees_pages_prefix(orig.trees@, 0); }
        assert(orig.trees@.subrange(0, orig.trees@.len() as int) =~= orig.trees@);
        assert(orig.trees@.take(0) =~= Seq::<PageTree>::empty());
        while rest.len() > 0
            invariant
                orig == *old(self),
                done@.len() + rest@.len() == orig.trees@.len(),
                rest@ == orig.trees@.subrange(done@.len() as int, orig.trees@.len() as int),
                own == trees_pages(orig.trees@.take(done@.len() as int)),
                *old(descendant_page_count) + total_pages(orig) <= usize::MAX,
                total_pages(orig) == orig.pages@.len() + trees_pages(orig.trees@),
                forall|i: int| 0 <= i < done@.len() ==> counts_set(orig.trees@[i], #[trigger] done@[i]),
            decreases rest@.len(),
        {
            let ghost k = done@.len() as int;
            let mut t = rest.remove(0);
            assert(t == orig.trees@[k]);
            assert(decreases_to!(orig => t)) by {
                assert(decreases_to!(orig => orig.trees));
                assert(decreases_to!(orig.trees => orig.trees[k]));
            }
            proof {
                lemma_trees_pages_step(orig.trees@, k);
                lemma_trees_pages_prefix(orig.trees@, k + 1);
            }
            t.update_counts(&mut own);
            done.push(t);
            assert(rest@ =~= orig.trees@.subrange(done@.len() as int, orig.trees@.len() as int));
        }
        assert(orig.trees@.take(done@.len() as int) =~= orig.trees@);
        self.trees = done;
        own = own + self.pages.len();
        *descendant_page_count = *descendant_page_count + own;
        let count = own as u64;
        let mut dict = PdfDictionaryObject::new().with_object_number(self.object_number);
        std::mem::swap(&mut dict, &mut self.dictionary);
        let ghost pre = dict@;
        let _ = dict.add("Count", PageValue::Integer(count));
        assert(dict@ == keyed_add(pre, "Count"@, PageValue::Integer(count)));
        self.dictionary = dict;
    }

    /// The references to the node's pages, then to its subtrees.
    fn kids_array(&self) -> (arr: PdfArrayObject<PdfReferenceObject>)
        ensures
            arr@ == kid_refs(*self),
            arr.spec_object_number() is None,
            arr.encodable(),
    {
        let mut arr: PdfArrayObject<PdfReferenceObject> = PdfArrayObject::new();
        let mut i: usize = 0;
        while i < self.pages.len()
            invariant
                i <= self.pages@.len(),
                arr@ == self.pages@.take(i as int).map_values(|p: Page| reference_to(p.number())),
                arr.spec_object_number() is None,
            decreases self.pages@.len() - i,
        {
            let n = self.pages[i].object_number();
            arr.push(PdfReferenceObject::new(n));
            i = i + 1;
            assert(arr@ =~= self.pages@.take(i as int).map_values(|p: Page| reference_to(p.number())));
        }
        assert(self.pages@.take(i as int) =~= self.pages@);
        let mut j: usize = 0;
        while j < self.trees.len()
            invariant
                j <= self.trees@.len(),
                arr@ == self.pages@.map_values(|p: Page| reference_to(p.number()))
                    + self.trees@.take(j as int).map_values(|t: PageTree| reference_to(t.object_number)),
                arr.spec_object_number() is None,
            decreases self.trees@.len() - j,
        {
            let n = self.trees[j].object_number();
            arr.push(PdfReferenceObject::new(n));
            j = j + 1;
            assert(arr@ =~= self.pages@.map_values(|p: Page| reference_to(p.number()))
                + self.trees@.take(j as int).map_values(|t: PageTree| reference_to(t.object_number)));
        }
        assert(self.trees@.take(j as int) =~= self.trees@);
        assert forall|k: int| 0 <= k < arr@.len() implies #[trigger] arr@[k].encodable() by {
            let pn = self.pages@.len() as int;
            if k < pn {
                assert(arr@[k] == reference_to(self.pages@[k].number()));
            } else {
                assert(arr@[k] == reference_to(self.trees@[k - pn].object_number));
            }
        }
        arr
    }

    /// Adds `/Kids` to the node's dictionary (unless it has one), referring to its pages and
    /// then its subtrees.
    fn add_kids(&mut self)
        ensures
            final(self).object_number == old(self).object_number,
            final(self).dictionary.spec_object_number() == old(self).dictionary.spec_object_number(),
            final(self).pages == old(self).pages,
            final(self).trees == old(self).trees,
            has_key(old(self).dictionary@, "Kids"@) ==> final(self).dictionary@ == old(self).dictionary@,
            !has_key(old(self).dictionary@, "Kids"@) ==> {
                &&& final(self).dictionary@.len() == old(self).dictionary@.len() + 1
                &&& final(self).dictionary@.drop_last() == old(self).dictionary@
                &&& final(self).dictionary@.last().0 == "Kids"@
                &&& final(self).dictionary@.last().1 matches PageValue::References(a)
                &&& a@ == kid_refs(*old(self))
                &&& a.spec_object_number() is None
            },
    {
        proof { use_type_invariant(&*self); }
        let arr = self.kids_array();
        let mut dict = PdfDictionaryObject::new().with_object_number(self.object_number);
        std::mem::swap(&mut dict, &mut self.dictionary);
        let ghost pre = dict@;
        let ghost kids = PageValue::References(arr);
        let _ = dict.add("Kids", PageValue::References(arr));
        assert(dict@ == keyed_add(pre, "Kids"@, kids));
        assert(dict.encodable());
        self.dictionary = dict;
    }

    /// Adds `/Kids` to the node (unless it has one), referring to its pages and then its
    /// subtrees, and appends the node's dictionary, then its pages, then its subtrees
    /// (each written the same way) to `file`, and their cross-reference entries to `xref`.
    #[verifier::spinoff_prover]
    #[verifier::rlimit(50)]
    fn serialize(&mut self, version: Version, xref: &mut Vec<XRefEntry>, file: &mut Vec<u8>) -> (r: Result<(), PdfError>)
        ensures
            r is Ok,
            kids_set(*old(self), *final(self)),
            final(file)@ == old(file)@ + tree_bytes(*final(self), version),
            final(xref)@ == old(xref)@ + tree_xref(*final(self), version, old(file)@.len()),
            points_at_objects(final(file)@, tree_xref(*final(self), version, old(file)@.len())),
        decreases *old(self),
    {
        proof { use_type_invariant(&*self); }
        let ghost orig = *old(self);
        let ghost f0 = file@;
        let ghost x0 = xref@;
        self.add_kids();
        proof { use_type_invariant(&*self); }
        let ghost d = self.dictionary;
        let _ = self.dictionary.serialize(version, xref, file);
        let ghost f1 = file@;
        let ghost x1 = xref@;
        let ghost dict_entries = d.xref_entries(version, f0.len());
        let _ = serialize_pages(&self.pages, version, xref, file);
        proof {
            lemma_points_at_objects_extend(f1, file@.subrange(f1.len() as int, file@.len() as int), dict_entries);
            assert(f1 + file@.subrange(f1.len() as int, file@.len() as int) =~= file@);
            lemma_points_at_objects_concat(file@, dict_entries, pages_xref(self.pages@, version, f1.len()));
        }
        let ghost f2 = file@;
        let ghost x2 = xref@;
        let ghost head = dict_entries + pages_xref(self.pages@, version, f1.len());
        let mut rest: Vec<PageTree> = Vec::new();
        std::mem::swap(&mut rest, &mut self.trees);
        assert(decreases_to!(orig => rest)) by {
            assert(decreases_to!(orig => orig.trees));
        }
        let done = serialize_trees(rest, version, xref, file);
        proof {
            lemma_points_at_objects_extend(f2, file@.subrange(f2.len() as int, file@.len() as int), head);
            assert(f2 + file@.subrange(f2.len() as int, file@.len() as int) =~= file@);
            lemma_points_at_objects_concat(file@, head, trees_xref(done@, version, f2.len()));
        }
        self.trees = done;
        proof {
            let t = *self;
            assert(t.dictionary == d);
            assert(t.trees@ == done@);
            assert(f1.len() == f0.len() + d.serialization(version).len());
            assert(f2.len() == f1.len() + pages_bytes(t.pages@, version).len());
            assert(tree_bytes(t, version) == d.serialization(version) + pages_bytes(t.pages@, version)
                + trees_bytes(done@, version));
            assert(tree_xref(t, version, f0.len()) == head + trees_xref(done@, version, f2.len()));
            assert(file@ =~= f0 + tree_bytes(t, version));
            assert(xref@ =~= x0 + tree_xref(t, version, f0.len()));
            assert(kids_set(orig, t));
        }
        Ok(())
    }
}

/// `new` is `old` with `/Count` added to each node that has none: the number of pages
/// under the node, at any depth.
pub closed spec fn counts_set(old: PageTree, new: PageTree) -> bool
    decreases old,
{
    &&& new.object_number == old.object_number
    &&& new.dictionary.spec_object_number() == old.dictionary.spec_object_number()
    &&& new.pages@ == old.pages@
    &&& new.trees@.len() == old.trees@.len()
    &&& forall|i: int| 0 <= i < old.trees@.len() ==> counts_set(#[trigger] old.trees@[i], new.trees@[i])
    &&& new.dictionary@ == keyed_add(old.dictionary@, "Count"@, PageValue::Integer(total_pages(old) as u64))
}

/// The first `k` trees hold no more pages than all of them.
proof fn lemma_trees_pages_prefix(ts: Seq<PageTree>, k: int)
    requires
        0 <= k <= ts.len(),
    ensures
        trees_pages(ts.take(k)) <= trees_pages(ts),
    decreases ts.len() - k,
{
    if k < ts.len() {
        lemma_trees_pages_prefix(ts, k + 1);
        lemma_trees_pages_step(ts, k);
    } else {
        assert(ts.take(k) =~= ts);
    }
}

/// The first `k + 1` trees hold the pages of the first `k` and those of the tree at `k`.
proof fn lemma_trees_pages_step(ts: Seq<PageTree>, k: int)
    requires
        0 <= k < ts.len(),
    ensures
        trees_pages(ts.take(k + 1)) == trees_pages(ts.take(k)) + total_pages(ts[k]),
{
    assert(ts.take(k + 1).drop_last() =~= ts.take(k));
    assert(ts.take(k + 1).last() == ts[k]);
}
/// Writes each tree as `PageTree::serialize` does, one after the other, and hands them back.
#[verifier::rlimit(60)]
fn serialize_trees(trees: Vec<PageTree>, version: Version, xref: &mut Vec<XRefEntry>, file: &mut Vec<u8>) -> (done: Vec<PageTree>)
    ensures
        done@.len() == trees@.len(),
        forall|m: int| 0 <= m < trees@.len() ==> kids_set(trees@[m], #[trigger] done@[m]),
        final(file)@ == old(file)@ + trees_bytes(done@, version),
        final(xref)@ == old(xref)@ + trees_xref(done@, version, old(file)@.len()),
        points_at_objects(final(file)@, trees_xref(done@, version, old(file)@.len())),
    decreases trees,
{
    let ghost f0 = file@;
    let ghost x0 = xref@;
    let ghost orig = trees;
    let mut rest = trees;
    let mut done: Vec<PageTree> = Vec::new();
    proof {
        assert(orig@.subrange(0, orig@.len() as int) =~= orig@);
        assert(file@ =~= f0 + trees_bytes(done@, version));
        assert(xref@ =~= x0 + trees_xref(done@, version, f0.len()));
    }
    while rest.len() > 0
        invariant
            orig == trees,
            done@.len() + rest@.len() == orig@.len(),
            rest@ == orig@.subrange(done@.len() as int, orig@.len() as int),
            forall|m: int| 0 <= m < done@.len() ==> kids_set(orig@[m], #[trigger] done@[m]),
            file@ == f0 + trees_bytes(done@, version),
            xref@ == x0 + trees_xref(done@, version, f0.len()),
            points_at_objects(file@, trees_xref(done@, version, f0.len())),
        decreases rest@.len(),
    {
        let ghost m = done@.len() as int;
        let ghost fm = file@;
        let ghost before = trees_xref(done@, version, f0.len());
        let mut t = rest.remove(0);
        assert(t == orig@[m]);
        assert(decreases_to!(orig => t)) by {
            assert(decreases_to!(orig => orig[m]));
        }
        let _ = t.serialize(version, xref, file);
        let ghost prev = done@;
        done.push(t);
        proof {
            let added = tree_xref(t, version, fm.len());
            lemma_points_at_objects_extend(fm, file@.subrange(fm.len() as int, file@.len() as int), before);
            assert(fm + file@.subrange(fm.len() as int, file@.len() as int) =~= file@);
            lemma_points_at_objects_concat(file@, before, added);
            assert(done@.drop_last() =~= prev);
            assert(done@.last() == t);
            assert(before + added =~= trees_xref(done@, version, f0.len()));
        }
        assert(file@ =~= f0 + trees_bytes(done@, version));
        assert(xref@ =~= x0 + trees_xref(done@, version, f0.len()));
        assert(rest@ =~= orig@.subrange(done@.len() as int, orig@.len() as int));
    }
    done
}

/// Appends the pages, one after the other, to `file`, and their cross-reference entries to
/// `xref`.
fn serialize_pages(pages: &Vec<Page>, version: Version, xref: &mut Vec<XRefEntry>, file: &mut Vec<u8>) -> (r: Result<(), PdfError>)
    ensures
        r is Ok,
        final(file)@ == old(file)@ + pages_bytes(pages@, version),
        final(xref)@ == old(xref)@ + pages_xref(pages@, version, old(file)@.len()),
        points_at_objects(final(file)@, pages_xref(pages@, version, old(file)@.len())),
{
    let ghost f0 = file@;
    let ghost x0 = xref@;
    let mut k: usize = 0;
    proof {
        assert(pages@.take(0) =~= Seq::<Page>::empty());
        assert(file@ =~= f0 + pages_bytes(pages@.take(0), version));
        assert(xref@ =~= x0 + pages_xref(pages@.take(0), version, f0.len()));
    }
    while k < pages.len()
        invariant
            k <= pages@.len(),
            file@ == f0 + pages_bytes(pages@.take(k as int), version),
            xref@ == x0 + pages_xref(pages@.take(k as int), version, f0.len()),
            points_at_objects(file@, pages_xref(pages@.take(k as int), version, f0.len())),
        decreases pages@.len() - k,
    {
        let ghost fk = file@;
        let ghost before = pages_xref(pages@.take(k as int), version, f0.len());
        let _ = pages[k].serialize(version, xref, file);
        proof {
            let p = pages@[k as int];
            let added = page_xref(p, version, fk.len());
            lemma_points_at_objects_extend(fk, file@.subrange(fk.len() as int, file@.len() as int), before);
            assert(fk + file@.subrange(fk.len() as int, file@.len() as int) =~= file@);
            lemma_points_at_objects_concat(file@, before, added);
            let t = pages@.take(k + 1);
            assert(t.drop_last() =~= pages@.take(k as int));
            assert(t.last() == p);
            assert(before + added =~= pages_xref(t, version, f0.len()));
        }
        k = k + 1;
        assert(file@ =~= f0 + pages_bytes(pages@.take(k as int), version));
        assert(xref@ =~= x0 + pages_xref(pages@.take(k as int), version, f0.len()));
    }
    assert(pages@.take(k as int) =~= pages@);
    Ok(())
}

/// The references of a node's `/Kids`: its pages, then its subtrees.
pub closed spec fn kid_refs(t: PageTree) -> Seq<PdfReferenceObject> {
    t.pages@.map_values(|p: Page| reference_to(p.number())) + t.trees@.map_values(
        |s: PageTree| reference_to(s.object_number),
    )
}

/// `new` is `old` with `/Kids` added to each node that has none, referring to the node's
/// pages and then its subtrees.
pub closed spec fn kids_set(old: PageTree, new: PageTree) -> bool
    decreases old,
{
    &&& new.object_number == old.object_number
    &&& new.dictionary.spec_object_number() == old.dictionary.spec_object_number()
    &&& new.pages@ == old.pages@
    &&& new.trees@.len() == old.trees@.len()
    &&& forall|i: int| 0 <= i < old.trees@.len() ==> kids_set(#[trigger] old.trees@[i], new.trees@[i])
    &&& has_key(old.dictionary@, "Kids"@) ==> new.dictionary@ == old.dictionary@
    &&& !has_key(old.dictionary@, "Kids"@) ==> {
        &&& new.dictionary@.len() == old.dictionary@.len() + 1
        &&& new.dictionary@.drop_last() == old.dictionary@
        &&& new.dictionary@.last().0 == "Kids"@
        &&& new.dictionary@.last().1 matches PageValue::References(a)
        &&& a@ == kid_refs(old)
        &&& a.spec_object_number() is None
    }
}

/// The pages as they are written, one after the other.
pub open spec fn pages_bytes(ps: Seq<Page>, version: Version) -> Seq<u8>
    decreases ps.len(),
{
    if ps.len() == 0 {
        Seq::empty()
    } else {
        pages_bytes(ps.drop_last(), version) + page_bytes(ps.last(), version)
    }
}

/// The cross-reference entries of the pages written from `start`.
pub open spec fn pages_xref(ps: Seq<Page>, version: Version, start: nat) -> Seq<XRefEntry>
    decreases ps.len(),
{
    if ps.len() == 0 {
        Seq::empty()
    } else {
        pages_xref(ps.drop_last(), version, start) + page_xref(
            ps.last(),
            version,
            start + pages_bytes(ps.drop_last(), version).len(),
        )
    }
}

/// A node as it is written: its dictionary, its pages, then its subtrees.
pub closed spec fn tree_bytes(t: PageTree, version: Version) -> Seq<u8>
    decreases t,
{
    t.dictionary.serialization(version) + pages_bytes(t.pages@, version) + trees_bytes(t.trees@, version)
}

/// The trees as they are written, one after the other.
pub closed spec fn trees_bytes(ts: Seq<PageTree>, version: Version) -> Seq<u8>
    decreases ts,
{
    if ts.len() == 0 {
        Seq::empty()
    } else {
        trees_bytes(ts.drop_last(), version) + tree_bytes(ts.last(), version)
    }
}

/// The cross-reference entries of a node written at `start`: its dictionary's, its
/// pages', then its subtrees'.
pub closed spec fn tree_xref(t: PageTree, version: Version, start: nat) -> Seq<XRefEntry>
    decreases t,
{
    let d = t.dictionary.serialization(version).len();
    t.dictionary.xref_entries(version, start) + pages_xref(t.pages@, version, start + d) + trees_xref(
        t.trees@,
        version,
        start + d + pages_bytes(t.pages@, version).len(),
    )
}

/// The cross-reference entries of the trees written from `start`.
pub closed spec fn trees_xref(ts: Seq<PageTree>, version: Version, start: nat) -> Seq<XRefEntry>
    decreases ts,
{
    if ts.len() == 0 {
        Seq::empty()
    } else {
        trees_xref(ts.drop_last(), version, start) + tree_xref(
            ts.last(),
            version,
            start + trees_bytes(ts.drop_last(), version).len(),
        )
    }
}

/// Makes page tree nodes and pages, numbered from the `ObjectOps` handed to each call.
pub struct PageFactory {}

impl PageFactory {
    pub fn new() -> (f: Self) {
        PageFactory {}
    }

    /// An empty node, `/Type /Pages`, numbered with the next number of `object_ops`.
    pub fn new_tree(&self, object_ops: &mut ObjectOps) -> (t: PageTree)
        requires
            old(object_ops).last() < u64::MAX,
        ensures
            final(object_ops).last() == old(object_ops).last() + 1,
            t.number().0 == final(object_ops).last(),
            t.entries().len() == 1,
            t.entries()[0].0 == "Type"@ && is_name(t.entries()[0].1, "Pages"@),
            t.subtrees().len() == 0,
            t.page_list().len() == 0,
    {
        let object_number = object_ops.next_object_number();
        PageTree::new(object_number)
    }

    /// A page of `content`, its dictionary and its content stream numbered with the next
    /// two numbers of `object_ops`.
    pub fn new_page(&self, object_ops: &mut ObjectOps, content: Vec<u8>) -> (p: Page)
        requires
            old(object_ops).last() + 2 <= u64::MAX,
        ensures
            final(object_ops).last() == old(object_ops).last() + 2,
            p.number().0 == old(object_ops).last() + 1,
            p.content_stream().object_number.0 == old(object_ops).last() + 2,
            p.content_stream().content@ == content@,
            p.entries().len() == 2,
            p.entries()[0].0 == "Type"@ && is_name(p.entries()[0].1, "Page"@),
            p.entries()[1] == ("Contents"@, PageValue::Reference(reference_to(p.content_stream().object_number))),
    {
        Page::new(object_ops, content)
    }
}

/// The pages of a document, under one root node.
pub struct PageOps {
    pub root_tree: PageTree,
}

impl PageOps {
    /// A root node numbered with the next number of `object_ops`, `/Type /Pages`, with
    /// `/Resources` offering the standard fonts under `/Font`, and `/MediaBox` the
    /// rectangle `media_box`, the default page size.
    pub fn new(object_ops: &mut ObjectOps, media_box: Vec<u8>) -> (r: Result<Self, PdfError>)
        requires
            old(object_ops).last() < u64::MAX,
        ensures
            final(object_ops).last() == old(object_ops).last() + 1,
            r matches Ok(ops) && {
                let e = ops.root_tree.entries();
                &&& ops.root_tree.number().0 == final(object_ops).last()
                &&& ops.root_tree.subtrees().len() == 0
                &&& ops.root_tree.page_list().len() == 0
                &&& e.len() == 3
                &&& e[0].0 == "Type"@ && is_name(e[0].1, "Pages"@)
                &&& e[1].0 == "Resources"@
                &&& e[1].1 matches PageValue::Resources(res) && res@.len() == 1 && res@[0].0 == "Font"@
                    && is_standard_fonts(res@[0].1@)
                &&& e[2] == ("MediaBox"@, PageValue::Rectangle(media_box))
            },
    {
        proof {
            reveal_strlit("Type");
            reveal_strlit("Resources");
            reveal_strlit("MediaBox");
        }
        let mut root_tree = PageFactory::new().new_tree(object_ops);
        let mut resources = PdfDictionaryObject::new();
        let _ = resources.add("Font", Fonts::get_standard_fonts_dict());
        proof { use_type_invariant(&root_tree); }
        let ghost pre = root_tree.dictionary@;
        let mut dict = PdfDictionaryObject::new().with_object_number(root_tree.object_number);
        std::mem::swap(&mut dict, &mut root_tree.dictionary);
        assert(dict@[0].0.len() != "Resources"@.len());
        let _ = dict.add("Resources", PageValue::Resources(resources));
        assert(dict@[0].0.len() != "MediaBox"@.len());
        assert(dict@[1].0.len() != "MediaBox"@.len());
        let _ = dict.add("MediaBox", PageValue::Rectangle(media_box));
        root_tree.dictionary = dict;
        Ok(PageOps { root_tree })
    }

    /// Sets the default `/MediaBox` of the root to the rectangle `media_box`.
    pub fn set_default_page_size(&mut self, media_box: Vec<u8>)
        ensures
            final(self).root_tree.entries()
                == keyed_insert(old(self).root_tree.entries(), "MediaBox"@, PageValue::Rectangle(media_box)),
            final(self).root_tree.number() == old(self).root_tree.number(),
            final(self).root_tree.subtrees() == old(self).root_tree.subtrees(),
            final(self).root_tree.page_list() == old(self).root_tree.page_list(),
    {
        self.root_tree.update_media_box(media_box);
    }

    pub fn root_tree_mut(&mut self) -> (t: &mut PageTree)
        ensures
            *t == old(self).root_tree,
            final(self).root_tree == *final(t),
    {
        &mut self.root_tree
    }

    pub fn root_tree(&self) -> (t: &PageTree)
        ensures
            *t == self.root_tree,
    {
        &self.root_tree
    }

    /// Sets the page counts, then writes the root with `/Kids` added to every node, its
    /// pages and its subtrees (see `PageTree::serialize`), to `file`, and their
    /// cross-reference entries to `xref`.
    pub fn serialize(&mut self, version: Version, xref: &mut Vec<XRefEntry>, file: &mut Vec<u8>) -> (r: Result<(), PdfError>)
        requires
            total_pages(old(self).root_tree) <= usize::MAX,
        ensures
            r is Ok,
            exists|counted: PageTree|
                counts_set(old(self).root_tree, counted) && #[trigger] kids_set(counted, final(self).root_tree),
            final(file)@ == old(file)@ + tree_bytes(final(self).root_tree, version),
            final(xref)@ == old(xref)@ + tree_xref(final(self).root_tree, version, old(file)@.len()),
            points_at_objects(final(file)@, tree_xref(final(self).root_tree, version, old(file)@.len())),
    {
        let mut count: usize = 0;
        self.root_tree.update_counts(&mut count);
        let ghost counted = self.root_tree;
        let r = self.root_tree.serialize(version, xref, file);
        assert(counts_set(old(self).root_tree, counted) && kids_set(counted, self.root_tree));
        r
    }
}

/// Once the counts are set, a node that had no `/Count` maps `/Count` to the number of
/// pages under it, at any depth.
pub proof fn lemma_count_after_update(old: PageTree, new: PageTree)
    requires
        counts_set(old, new),
        !has_key(old.entries(), "Count"@),
    ensures
        keyed_map(new.entries()).contains_key("Count"@),
        keyed_map(new.entries())["Count"@] == PageValue::Integer(total_pages(old) as u64),
{
    let e = old.entries();
    let v = PageValue::Integer(total_pages(old) as u64);
    assert(new.entries() == e.push(("Count"@, v)));
    assert(e.push(("Count"@, v)).drop_last() =~= e);
}

} // verus!
