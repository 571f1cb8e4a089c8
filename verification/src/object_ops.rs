//! Allocation of object numbers, and the encoding and serialisation of objects with
//! the cross-reference entries of indirect objects.
use vstd::prelude::*;

use crate::decimal::{decimal_bytes, push_decimal};
use crate::error::PdfError;
use crate::object_number::ObjectNumber;
use crate::objects::metadata::{Generation, ObjectStatus};
use crate::version::Version;

verus! {

/// Hands out object numbers in increasing order; 0 is the free head of the
/// cross-reference table, so the first number handed out is 1.
pub struct ObjectOps {
    object_number: ObjectNumber,
}

impl ObjectOps {
    pub closed spec fn last(&self) -> u64 {
        self.object_number.0
    }

    pub fn new() -> (o: Self)
        ensures
            o.last() == 0,
    {
        Self { object_number: ObjectNumber::new(0) }
    }

    /// The last number handed out (0 before any).
    pub fn object_number(&self) -> (n: ObjectNumber)
        ensures
            n.0 == self.last(),
    {
        self.object_number
    }

    pub fn next_object_number(&mut self) -> (n: ObjectNumber)
        requires
            old(self).last() < u64::MAX,
        ensures
            n.0 == old(self).last() + 1,
            final(self).last() == n.0,
    {
        self.object_number = self.object_number.next();
        self.object_number
    }
}

} // verus!

verus! {

/// An entry of the cross-reference table: where an indirect object starts.
#[derive(Debug, Clone, Copy, PartialEq, Eq, Structural)]
pub struct XRefEntry {
    pub object_number: ObjectNumber,
    pub offset: usize,
    pub status: ObjectStatus,
    pub generation: Generation,
}

/// The entry of an in-use object of generation 0 written at `offset`.
pub open spec fn in_use_entry(object_number: ObjectNumber, offset: nat) -> XRefEntry {
    XRefEntry {
        object_number,
        offset: offset as usize,
        status: ObjectStatus::InUse,
        generation: Generation::Normal,
    }
}

/// `<number> 0 obj` before an indirect object; nothing before a direct one.
pub open spec fn indirect_start_bytes(object_number: Option<ObjectNumber>) -> Seq<u8> {
    match object_number {
        Some(n) => decimal_bytes(n.0 as nat) + seq![32u8, 48u8, 32u8, 111u8, 98u8, 106u8],
        None => Seq::empty(),
    }
}

/// `endobj` and a blank line after an indirect object; nothing after a direct one.
pub open spec fn indirect_end_bytes(object_number: Option<ObjectNumber>) -> Seq<u8> {
    match object_number {
        Some(n) => seq![101u8, 110u8, 100u8, 111u8, 98u8, 106u8, 10u8, 10u8],
        None => Seq::empty(),
    }
}

/// The cross-reference entry recorded for an indirect object written at `offset`.
pub open spec fn indirect_start_xref(object_number: Option<ObjectNumber>, offset: nat) -> Seq<XRefEntry> {
    match object_number {
        Some(n) => seq![in_use_entry(n, offset)],
        None => Seq::empty(),
    }
}

/// The file holds `<number> 0 obj` of the entry's object at the entry's offset.
pub open spec fn header_at(file: Seq<u8>, e: XRefEntry) -> bool {
    let header = indirect_start_bytes(Some(e.object_number));
    &&& e.offset + header.len() <= file.len()
    &&& file.subrange(e.offset as int, e.offset + header.len()) == header
}

/// Every entry points at its object's header in the file.
pub open spec fn points_at_objects(file: Seq<u8>, entries: Seq<XRefEntry>) -> bool {
    forall|k: int| 0 <= k < entries.len() ==> #[trigger] header_at(file, entries[k])
}

/// Entries that point into a file still do once more is written after it.
pub proof fn lemma_points_at_objects_extend(file: Seq<u8>, more: Seq<u8>, entries: Seq<XRefEntry>)
    requires
        points_at_objects(file, entries),
    ensures
        points_at_objects(file + more, entries),
{
    assert forall|k: int| 0 <= k < entries.len() implies #[trigger] header_at(file + more, entries[k]) by {
        let e = entries[k];
        let header = indirect_start_bytes(Some(e.object_number));
        assert(header_at(file, e));
        assert((file + more).subrange(e.offset as int, e.offset + header.len())
            =~= file.subrange(e.offset as int, e.offset + header.len()));
    }
}

/// Entries of two groups that each point into a file, together, do too.
pub proof fn lemma_points_at_objects_concat(file: Seq<u8>, a: Seq<XRefEntry>, b: Seq<XRefEntry>)
    requires
        points_at_objects(file, a),
        points_at_objects(file, b),
    ensures
        points_at_objects(file, a + b),
{
    assert forall|k: int| 0 <= k < (a + b).len() implies #[trigger] header_at(file, (a + b)[k]) by {
        if k < a.len() {
            assert((a + b)[k] == a[k]);
        } else {
            assert((a + b)[k] == b[k - a.len()]);
        }
    }
}

/// Objects with a byte encoding.
pub trait Encode {
    /// Whether the object can be encoded (a reference needs its object number).
    spec fn encodable(&self) -> bool;

    spec fn encoding(&self, version: Version) -> Seq<u8>;

    fn encode(&self, version: Version) -> (r: Result<Vec<u8>, PdfError>)
        requires
            self.encodable(),
        ensures
            r matches Ok(v) && v@ == self.encoding(version),
    ;
}

/// Objects written into a file: the bytes they append, and the cross-reference entries of
/// the indirect objects among them, by offset in the file.
pub trait Serialize: Encode {
    spec fn serialization(&self, version: Version) -> Seq<u8>;

    /// The entries recorded when the object is written at offset `start`.
    spec fn xref_entries(&self, version: Version, start: nat) -> Seq<XRefEntry>;

    /// Appends the object to `file` and its cross-reference entries to `xref`; each entry
    /// points at its object's `<number> 0 obj` in the file.
    fn serialize(&self, version: Version, xref: &mut Vec<XRefEntry>, file: &mut Vec<u8>) -> (r: Result<(), PdfError>)
        requires
            self.encodable(),
        ensures
            r is Ok,
            final(file)@ == old(file)@ + self.serialization(version),
            final(xref)@ == old(xref)@ + self.xref_entries(version, old(file)@.len()),
            points_at_objects(final(file)@, self.xref_entries(version, old(file)@.len())),
    ;
}

/// The entry of an indirect object written at `offset`: in use, generation 0.
pub fn indirect_xref_entry(object_number: ObjectNumber, offset: usize) -> (e: XRefEntry)
    ensures
        e == in_use_entry(object_number, offset as nat),
{
    XRefEntry { object_number, offset, status: ObjectStatus::InUse, generation: Generation::Normal }
}

/// For an indirect object, records its entry and writes `<number> 0 obj`.
pub fn try_indirect_start(
    xref: &mut Vec<XRefEntry>,
    file: &mut Vec<u8>,
    object_number: Option<ObjectNumber>,
) -> (r: Result<(), PdfError>)
    ensures
        r is Ok,
        final(file)@ == old(file)@ + indirect_start_bytes(object_number),
        final(xref)@ == old(xref)@ + indirect_start_xref(object_number, old(file)@.len()),
        points_at_objects(final(file)@, indirect_start_xref(object_number, old(file)@.len())),
{
    match object_number {
        Some(n) => {
            let offset = file.len();
            xref.push(indirect_xref_entry(n, offset));
            push_decimal(file, n.value());
            file.push(32u8);
            file.push(48u8);
            file.push(32u8);
            file.push(111u8);
            file.push(98u8);
            file.push(106u8);
            assert(file@ =~= old(file)@ + indirect_start_bytes(object_number));
            assert(xref@ =~= old(xref)@ + indirect_start_xref(object_number, old(file)@.len()));
            let ghost e = in_use_entry(n, old(file)@.len() as nat);
            assert(file@.subrange(e.offset as int, e.offset + indirect_start_bytes(Some(n)).len())
                =~= indirect_start_bytes(Some(n)));
            assert(header_at(file@, indirect_start_xref(object_number, old(file)@.len())[0]));
        },
        None => {
            assert(file@ =~= old(file)@ + indirect_start_bytes(object_number));
            assert(xref@ =~= old(xref)@ + indirect_start_xref(object_number, old(file)@.len()));
        },
    }
    Ok(())
}

/// For an indirect object, writes `endobj` and a blank line.
pub fn try_indirect_end(file: &mut Vec<u8>, object_number: Option<ObjectNumber>) -> (r: Result<(), PdfError>)
    ensures
        r is Ok,
        final(file)@ == old(file)@ + indirect_end_bytes(object_number),
{
    if object_number.is_some() {
        file.push(101u8);
        file.push(110u8);
        file.push(100u8);
        file.push(111u8);
        file.push(98u8);
        file.push(106u8);
        file.push(10u8);
        file.push(10u8);
    }
    assert(file@ =~= old(file)@ + indirect_end_bytes(object_number));
    Ok(())
}

/// Appends the bytes of `v` to `file`.
pub fn write_bytes(file: &mut Vec<u8>, v: Vec<u8>)
    ensures
        final(file)@ == old(file)@ + v@,
{
    let mut v = v;
    file.append(&mut v);
}

} // verus!
