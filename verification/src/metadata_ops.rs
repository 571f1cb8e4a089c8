//! Document metadata: the document information dictionary, the XMP packet of the
//! metadata stream, and XML escaping of values.
use vstd::prelude::*;
use vstd::string::StrSliceExecFns;
use vstd::utf8::encode_utf8;

use crate::error::PdfError;
use crate::keyed::{has_key, Keyed};
use crate::object_number::ObjectNumber;
use crate::object_ops::{
    in_use_entry, indirect_end_bytes, indirect_start_bytes, indirect_start_xref, lemma_points_at_objects_concat,
    lemma_points_at_objects_extend, points_at_objects, Serialize, XRefEntry,
};
use crate::objects::pdf_dictionary::{duplicate_key_message, entries_bytes, entries_xref, PdfDictionaryObject};
use crate::objects::pdf_string::PdfStringObject;
use crate::page_ops::{content_stream_bytes, ContentStream};
use crate::strbuf::{push_char, push_str};
use crate::unicode::chars_of;
use crate::version::Version;

verus! {

/// The start of an XMP packet, up to the opening of the description.
pub const XMP_HEADER: &'static str = "<?xpacket begin=\"\" id=\"W5M0MpCehiHzreSzNTczkc9d\"?>\n<x:xmpmeta xmlns:x=\"adobe:ns:meta/\">\n<rdf:RDF xmlns:rdf=\"http://www.w3.org/1999/02/22-rdf-syntax-ns#\">\n<rdf:Description rdf:about=\"\" xmlns:dc=\"http://purl.org/dc/elements/1.1/\">";

/// The end of an XMP packet, from the closing of the description.
pub const XMP_FOOTER: &'static str = "</rdf:Description>\n</rdf:RDF>\n</x:xmpmeta>\n<?xpacket end=\"w\"?>";

/// The kinds of XMP values: a language alternative, an ordered sequence, an unordered
/// bag, or plain text.
#[derive(Debug, Clone, Copy, PartialEq, Eq, Structural)]
pub enum XmpType {
    Alt,
    Sequence,
    Bag,
    /// Plain text, in no container.
    Plain,
}

/// What adding `text` under `key` does: an error that leaves the entries as they were
/// when the key is present, the entry appended otherwise.
pub open spec fn text_added(
    before: Keyed<PdfStringObject>,
    after: Keyed<PdfStringObject>,
    key: Seq<char>,
    text: Seq<char>,
    r: Result<(), PdfError>,
) -> bool {
    if has_key(before, key) {
        &&& after == before
        &&& r matches Err(e) && e matches PdfError::StructureError(m) && m@ == duplicate_key_message(key)
    } else {
        &&& r is Ok
        &&& after.len() == before.len() + 1
        &&& after.drop_last() == before
        &&& after.last().0 == key
        &&& after.last().1.value@ == text
    }
}

/// The document information dictionary, and the body of the XMP packet of the metadata
/// stream, with the object numbers of both.
pub struct MetadataOps {
    dict: PdfDictionaryObject<PdfStringObject>,
    xmp_object_number: ObjectNumber,
    xmp_body: String,
}

impl MetadataOps {
    /// The information dictionary, as the entries in the order added.
    pub closed spec fn info(&self) -> Keyed<PdfStringObject> {
        self.dict@
    }

    pub closed spec fn info_object_number(&self) -> Option<ObjectNumber> {
        self.dict.spec_object_number()
    }

    pub closed spec fn xmp_number(&self) -> ObjectNumber {
        self.xmp_object_number
    }

    pub closed spec fn spec_xmp_body(&self) -> Seq<char> {
        self.xmp_body@
    }

    /// The information dictionary as it is written: an indirect dictionary, each value a
    /// text string.
    pub open spec fn info_bytes(&self, version: Version) -> Seq<u8> {
        indirect_start_bytes(self.info_object_number()) + seq![32u8, 60u8, 60u8, 10u8]
            + entries_bytes(self.info(), version) + seq![62u8, 62u8, 10u8]
            + indirect_end_bytes(self.info_object_number())
    }

    /// The cross-reference entry of the information dictionary written at `start`.
    pub open spec fn info_xref(&self, version: Version, start: nat) -> Seq<XRefEntry> {
        indirect_start_xref(self.info_object_number(), start)
    }

    pub fn new(info_object_number: ObjectNumber, xmp_object_number: ObjectNumber) -> (m: Self)
        ensures
            m.info() == Seq::<(Seq<char>, PdfStringObject)>::empty(),
            m.info_object_number() == Some(info_object_number),
            m.xmp_number() == xmp_object_number,
            m.spec_xmp_body() == Seq::<char>::empty(),
    {
        Self {
            dict: PdfDictionaryObject::new().with_object_number(info_object_number),
            xmp_object_number,
            xmp_body: String::new(),
        }
    }

    /// Adds the text under `key`; an error when the key is already present.
    fn add_text(&mut self, key: &str, text: &str) -> (r: Result<(), PdfError>)
        ensures
            text_added(old(self).info(), final(self).info(), key@, text@, r),
            final(self).info_object_number() == old(self).info_object_number(),
            final(self).xmp_number() == old(self).xmp_number(),
            final(self).spec_xmp_body() == old(self).spec_xmp_body(),
    {
        let r = self.dict.add(key, PdfStringObject::new(text));
        proof {
            if !has_key(old(self).info(), key@) {
                assert(self.info().drop_last() =~= old(self).info());
            }
        }
        r
    }

    /// Appends XML to the body of the XMP packet.
    pub fn xmp_add(&mut self, text: &str)
        ensures
            final(self).spec_xmp_body() == old(self).spec_xmp_body() + text@,
            final(self).info() == old(self).info(),
            final(self).info_object_number() == old(self).info_object_number(),
            final(self).xmp_number() == old(self).xmp_number(),
    {
        push_str(&mut self.xmp_body, text);
    }

    /// Adds the /Title entry.
    pub fn add_title(&mut self, text: &str) -> (r: Result<(), PdfError>)
        ensures
            text_added(old(self).info(), final(self).info(), "Title"@, text@, r),
            final(self).info_object_number() == old(self).info_object_number(),
            final(self).xmp_number() == old(self).xmp_number(),
            final(self).spec_xmp_body() == old(self).spec_xmp_body(),
    {
        self.add_text("Title", text)
    }

    /// Adds the /Author entry.
    pub fn add_author(&mut self, text: &str) -> (r: Result<(), PdfError>)
        ensures
            text_added(old(self).info(), final(self).info(), "Author"@, text@, r),
            final(self).info_object_number() == old(self).info_object_number(),
            final(self).xmp_number() == old(self).xmp_number(),
            final(self).spec_xmp_body() == old(self).spec_xmp_body(),
    {
        self.add_text("Author", text)
    }

    /// Adds the /Subject entry.
    pub fn add_subject(&mut self, text: &str) -> (r: Result<(), PdfError>)
        ensures
            text_added(old(self).info(), final(self).info(), "Subject"@, text@, r),
            final(self).info_object_number() == old(self).info_object_number(),
            final(self).xmp_number() == old(self).xmp_number(),
            final(self).spec_xmp_body() == old(self).spec_xmp_body(),
    {
        self.add_text("Subject", text)
    }

    /// Adds the /Keywords entry.
    pub fn add_keywords(&mut self, text: &str) -> (r: Result<(), PdfError>)
        ensures
            text_added(old(self).info(), final(self).info(), "Keywords"@, text@, r),
            final(self).info_object_number() == old(self).info_object_number(),
            final(self).xmp_number() == old(self).xmp_number(),
            final(self).spec_xmp_body() == old(self).spec_xmp_body(),
    {
        self.add_text("Keywords", text)
    }

    /// Adds the /Creator entry.
    pub fn add_creator(&mut self, text: &str) -> (r: Result<(), PdfError>)
        ensures
            text_added(old(self).info(), final(self).info(), "Creator"@, text@, r),
            final(self).info_object_number() == old(self).info_object_number(),
            final(self).xmp_number() == old(self).xmp_number(),
            final(self).spec_xmp_body() == old(self).spec_xmp_body(),
    {
        self.add_text("Creator", text)
    }

    /// Adds the /Producer entry.
    pub fn add_producer(&mut self, text: &str) -> (r: Result<(), PdfError>)
        ensures
            text_added(old(self).info(), final(self).info(), "Producer"@, text@, r),
            final(self).info_object_number() == old(self).info_object_number(),
            final(self).xmp_number() == old(self).xmp_number(),
            final(self).spec_xmp_body() == old(self).spec_xmp_body(),
    {
        self.add_text("Producer", text)
    }

    /// Adds the /CreationDate entry.
    pub fn add_creation_date(&mut self, text: &str) -> (r: Result<(), PdfError>)
        ensures
            text_added(old(self).info(), final(self).info(), "CreationDate"@, text@, r),
            final(self).info_object_number() == old(self).info_object_number(),
            final(self).xmp_number() == old(self).xmp_number(),
            final(self).spec_xmp_body() == old(self).spec_xmp_body(),
    {
        self.add_text("CreationDate", text)
    }

    /// Adds the /ModDate entry.
    pub fn add_mod_date(&mut self, text: &str) -> (r: Result<(), PdfError>)
        ensures
            text_added(old(self).info(), final(self).info(), "ModDate"@, text@, r),
            final(self).info_object_number() == old(self).info_object_number(),
            final(self).xmp_number() == old(self).xmp_number(),
            final(self).spec_xmp_body() == old(self).spec_xmp_body(),
    {
        self.add_text("ModDate", text)
    }

    /// The information dictionary.
    pub fn info_dict(&self) -> (d: &PdfDictionaryObject<PdfStringObject>)
        ensures
            d@ == self.info(),
            d.spec_object_number() == self.info_object_number(),
    {
        &self.dict
    }

    /// The object number of the metadata stream.
    pub fn xmp_object_number(&self) -> (n: ObjectNumber)
        ensures
            n == self.xmp_number(),
    {
        self.xmp_object_number
    }

    /// The XMP packet: its header, the body, its footer.
    pub fn xmp_packet(&self) -> (p: String)
        ensures
            p@ == XMP_HEADER@ + self.spec_xmp_body() + XMP_FOOTER@,
    {
        let mut p = crate::strbuf::owned(XMP_HEADER);
        push_str(&mut p, self.xmp_body.as_str());
        push_str(&mut p, XMP_FOOTER);
        p
    }

    /// `<tag><rdf:Alt><rdf:li xml:lang="x-default">value</rdf:li></rdf:Alt></tag>`
    pub fn xalt(&mut self, tag: &str, value: &str) -> (s: String)
        ensures
            s@ == xmp_element(tag@, "<rdf:Alt><rdf:li xml:lang=\"x-default\">"@ + value@ + "</rdf:li></rdf:Alt>"@),
            *final(self) == *old(self),
    {
        let mut inner = crate::strbuf::owned("<rdf:Alt><rdf:li xml:lang=\"x-default\">");
        push_str(&mut inner, value);
        push_str(&mut inner, "</rdf:li></rdf:Alt>");
        xmp_element_of(tag, inner.as_str())
    }

    /// `<tag><rdf:Seq><rdf:li>value</rdf:li></rdf:Seq></tag>`
    pub fn xseq(&mut self, tag: &str, value: &str) -> (s: String)
        ensures
            s@ == xmp_element(tag@, "<rdf:Seq><rdf:li>"@ + value@ + "</rdf:li></rdf:Seq>"@),
            *final(self) == *old(self),
    {
        let mut inner = crate::strbuf::owned("<rdf:Seq><rdf:li>");
        push_str(&mut inner, value);
        push_str(&mut inner, "</rdf:li></rdf:Seq>");
        xmp_element_of(tag, inner.as_str())
    }

    /// `<tag><rdf:Bag><rdf:li>value</rdf:li></rdf:Bag></tag>`
    pub fn xbag(&mut self, tag: &str, value: &str) -> (s: String)
        ensures
            s@ == xmp_element(tag@, "<rdf:Bag><rdf:li>"@ + value@ + "</rdf:li></rdf:Bag>"@),
            *final(self) == *old(self),
    {
        let mut inner = crate::strbuf::owned("<rdf:Bag><rdf:li>");
        push_str(&mut inner, value);
        push_str(&mut inner, "</rdf:li></rdf:Bag>");
        xmp_element_of(tag, inner.as_str())
    }

    /// `<tag>value</tag>`
    pub fn xtext(&mut self, tag: &str, value: &str) -> (s: String)
        ensures
            s@ == xmp_element(tag@, value@),
            *final(self) == *old(self),
    {
        xmp_element_of(tag, value)
    }

    /// `<tag>value</tag>`, for a date.
    pub fn xdate(&mut self, tag: &str, value: &str) -> (s: String)
        ensures
            s@ == xmp_element(tag@, value@),
            *final(self) == *old(self),
    {
        xmp_element_of(tag, value)
    }

    /// Appends the information dictionary, each value written as a text string, then the
    /// metadata stream holding the XMP packet, to `file`, and their cross-reference entries
    /// to `xref`.
    pub fn serialize(&self, version: Version, xref: &mut Vec<XRefEntry>, file: &mut Vec<u8>) -> (r: Result<(), PdfError>)
        ensures
            r is Ok,
            final(file)@ == old(file)@ + self.info_bytes(version)
                + content_stream_bytes(self.xmp_number(), encode_utf8(XMP_HEADER@ + self.spec_xmp_body() + XMP_FOOTER@)),
            final(xref)@ == old(xref)@ + metadata_xref(*self, version, old(file)@.len()),
            points_at_objects(final(file)@, metadata_xref(*self, version, old(file)@.len())),
    {
        let ghost f0 = file@;
        let _ = self.dict.serialize(version, xref, file);
        let ghost f1 = file@;
        let ghost first = self.dict.xref_entries(version, f0.len());
        proof { lemma_text_entries_no_xref(self.info(), version, (f0.len() + indirect_start_bytes(self.info_object_number()).len() + 4) as nat); }
        assert(first =~= self.info_xref(version, f0.len()));
        let packet = self.xmp_packet();
        let stream = ContentStream::new(self.xmp_object_number, packet.as_str().as_bytes_vec());
        let _ = stream.serialize(xref, file);
        proof {
            let second = seq![in_use_entry(self.xmp_object_number, f1.len())];
            lemma_points_at_objects_extend(f1, file@.subrange(f1.len() as int, file@.len() as int), first);
            assert(f1 + file@.subrange(f1.len() as int, file@.len() as int) =~= file@);
            lemma_points_at_objects_concat(file@, first, second);
            assert(first + second =~= metadata_xref(*self, version, f0.len()));
        }
        Ok(())
    }
}

/// `<tag>`, the content, `</tag>`.
pub open spec fn xmp_element(tag: Seq<char>, content: Seq<char>) -> Seq<char> {
    seq!['<'] + tag + seq!['>'] + content + seq!['<', '/'] + tag + seq!['>']
}

fn xmp_element_of(tag: &str, content: &str) -> (s: String)
    ensures
        s@ == xmp_element(tag@, content@),
{
    let mut s = String::new();
    push_char(&mut s, '<');
    push_str(&mut s, tag);
    push_char(&mut s, '>');
    push_str(&mut s, content);
    push_char(&mut s, '<');
    push_char(&mut s, '/');
    push_str(&mut s, tag);
    push_char(&mut s, '>');
    assert(s@ =~= xmp_element(tag@, content@));
    s
}

/// The XML escape of a character: an entity for `&`, `<`, `>`, `"` and `'`, the character
/// itself otherwise.
pub open spec fn xml_escaped_char(c: char) -> Seq<char> {
    if c == '&' {
        seq!['&', 'a', 'm', 'p', ';']
    } else if c == '<' {
        seq!['&', 'l', 't', ';']
    } else if c == '>' {
        seq!['&', 'g', 't', ';']
    } else if c == '"' {
        seq!['&', 'q', 'u', 'o', 't', ';']
    } else if c == '\'' {
        seq!['&', 'a', 'p', 'o', 's', ';']
    } else {
        seq![c]
    }
}

/// The XML escapes of the characters of `s`, in order.
pub open spec fn xml_escaped(s: Seq<char>) -> Seq<char>
    decreases s.len(),
{
    if s.len() == 0 {
        Seq::empty()
    } else {
        xml_escaped(s.drop_last()) + xml_escaped_char(s.last())
    }
}

/// Escapes the characters that XML gives a meaning: `&`, `<`, `>`, `"` and `'`.
pub fn escape_xml(s: &str) -> (r: String)
    ensures
        r@ == xml_escaped(s@),
{
    let chars = chars_of(s);
    let mut r = String::new();
    let mut i: usize = 0;
    while i < chars.len()
        invariant
            i <= chars@.len(),
            chars@ == s@,
            r@ == xml_escaped(s@.take(i as int)),
        decreases chars@.len() - i,
    {
        let c = chars[i];
        let ghost before = r@;
        if c == '&' {
            push_char(&mut r, '&');
            push_char(&mut r, 'a');
            push_char(&mut r, 'm');
            push_char(&mut r, 'p');
            push_char(&mut r, ';');
        } else if c == '<' {
            push_char(&mut r, '&');
            push_char(&mut r, 'l');
            push_char(&mut r, 't');
            push_char(&mut r, ';');
        } else if c == '>' {
            push_char(&mut r, '&');
            push_char(&mut r, 'g');
            push_char(&mut r, 't');
            push_char(&mut r, ';');
        } else if c == '"' {
            push_char(&mut r, '&');
            push_char(&mut r, 'q');
            push_char(&mut r, 'u');
            push_char(&mut r, 'o');
            push_char(&mut r, 't');
            push_char(&mut r, ';');
        } else if c == '\'' {
            push_char(&mut r, '&');
            push_char(&mut r, 'a');
            push_char(&mut r, 'p');
            push_char(&mut r, 'o');
            push_char(&mut r, 's');
            push_char(&mut r, ';');
        } else {
            push_char(&mut r, c);
        }
        assert(r@ =~= before + xml_escaped_char(c));
        i = i + 1;
        assert(s@.take(i as int).drop_last() =~= s@.take(i - 1));
    }
    assert(s@.take(i as int) =~= s@);
    r
}

/// XML escaping leaves no markup: the escaped text holds no `<`, `>`, `"` or `'`.
pub proof fn lemma_escape_xml_no_markup(s: Seq<char>)
    ensures
        forall|i: int| 0 <= i < xml_escaped(s).len() ==> {
            let c = #[trigger] xml_escaped(s)[i];
            c != '<' && c != '>' && c != '"' && c != '\''
        },
    decreases s.len(),
{
    if s.len() > 0 {
        lemma_escape_xml_no_markup(s.drop_last());
        let a = xml_escaped(s.drop_last());
        let b = xml_escaped_char(s.last());
        assert forall|i: int| 0 <= i < xml_escaped(s).len() implies {
            let c = #[trigger] xml_escaped(s)[i];
            c != '<' && c != '>' && c != '"' && c != '\''
        } by {
            if i < a.len() {
                assert(xml_escaped(s)[i] == a[i]);
            } else {
                assert(xml_escaped(s)[i] == b[i - a.len()]);
            }
        }
    }
}

/// Text strings are direct objects: writing them records no cross-reference entry.
proof fn lemma_text_entries_no_xref(e: Keyed<PdfStringObject>, version: Version, start: nat)
    ensures
        entries_xref(e, version, start) == Seq::<XRefEntry>::empty(),
    decreases e.len(),
{
    if e.len() > 0 {
        lemma_text_entries_no_xref(e.drop_last(), version, start);
    }
}

/// The cross-reference entries of the metadata written at `start`: that of the information
/// dictionary, then that of the metadata stream.
pub open spec fn metadata_xref(m: MetadataOps, version: Version, start: nat) -> Seq<XRefEntry> {
    m.info_xref(version, start) + seq![in_use_entry(m.xmp_number(), start + m.info_bytes(version).len())]
}

} // verus!
