//! Objects with cross-reference metadata, and their indirect form
//! (`<number> <generation> obj ... endobj`) and references (`<number> <generation> R`).
use vstd::prelude::*;

use crate::decimal::{decimal_bytes, push_decimal};
use crate::objects::reference::reference_bytes;

verus! {

/// Object status in the cross-reference table.
#[derive(Debug, Clone, Copy, PartialEq, Eq, Structural)]
pub enum ObjectStatus {
    /// Free object slot (deleted or never used): `f` in the table.
    Free,
    /// In-use object: `n` in the table.
    InUse,
}

impl ObjectStatus {
    /// The status character of the cross-reference table.
    pub fn as_char(&self) -> (c: char)
        ensures
            c == (match *self {
                ObjectStatus::Free => 'f',
                ObjectStatus::InUse => 'n',
            }),
    {
        match self {
            ObjectStatus::Free => 'f',
            ObjectStatus::InUse => 'n',
        }
    }
}

/// Where and how an object is recorded in the file.
#[derive(Debug, Clone)]
pub struct PdfMetadata {
    /// Object number (none for unassigned objects).
    pub number: Option<usize>,
    /// Byte offset in the file, for the cross-reference table.
    pub offset: usize,
    /// Generation number: 0 for new objects, 65535 for the free object 0.
    pub generation: u32,
    pub status: ObjectStatus,
}

impl Default for PdfMetadata {
    fn default() -> (m: Self)
        ensures
            m.number is None,
            m.offset == 0,
            m.generation == 0,
            m.status == ObjectStatus::InUse,
    {
        PdfMetadata { number: None, offset: 0, generation: 0, status: ObjectStatus::InUse }
    }
}

impl PdfMetadata {
    pub fn new() -> (m: Self)
        ensures
            m.number is None,
            m.offset == 0,
            m.generation == 0,
            m.status == ObjectStatus::InUse,
    {
        Self::default()
    }

    pub fn new_free() -> (m: Self)
        ensures
            m.number is None,
            m.offset == 0,
            m.generation == 0,
            m.status == ObjectStatus::Free,
    {
        PdfMetadata { number: None, offset: 0, generation: 0, status: ObjectStatus::Free }
    }
}

/// The object number written for an object: 0 while none is assigned.
pub open spec fn written_number(m: PdfMetadata) -> nat {
    match m.number {
        Some(n) => n as nat,
        None => 0,
    }
}

/// `<number> <generation> obj\n<data>\nendobj`
pub open spec fn indirect_bytes(m: PdfMetadata, data: Seq<u8>) -> Seq<u8> {
    decimal_bytes(written_number(m)) + seq![32u8] + decimal_bytes(m.generation as nat)
        + seq![32u8, 111u8, 98u8, 106u8, 10u8] + data
        + seq![10u8, 101u8, 110u8, 100u8, 111u8, 98u8, 106u8]
}

/// Common behaviour of objects: their metadata, their data, and the indirect form
/// and reference built from those.
pub trait PdfObject {
    spec fn spec_metadata(&self) -> PdfMetadata;

    spec fn spec_data(&self) -> Seq<u8>;

    fn metadata(&self) -> (m: &PdfMetadata)
        ensures
            *m == self.spec_metadata(),
    ;

    fn metadata_mut(&mut self) -> (m: &mut PdfMetadata)
        ensures
            *m == old(self).spec_metadata(),
            final(self).spec_metadata() == *final(m),
            final(self).spec_data() == old(self).spec_data(),
    ;

    /// The object's data as bytes.
    fn data(&self) -> (d: Vec<u8>)
        ensures
            d@ == self.spec_data(),
    ;

    /// Indirect representation of the object.
    fn indirect(&self) -> (r: Vec<u8>)
        ensures
            r@ == indirect_bytes(self.spec_metadata(), self.spec_data()),
    {
        let meta = self.metadata();
        let number: usize = match meta.number {
            Some(n) => n,
            None => 0,
        };
        let mut result: Vec<u8> = Vec::new();
        push_decimal(&mut result, number as u64);
        result.push(32u8);
        push_decimal(&mut result, meta.generation as u64);
        result.push(32u8);
        result.push(111u8);
        result.push(98u8);
        result.push(106u8);
        result.push(10u8);
        let mut d = self.data();
        result.append(&mut d);
        result.push(10u8);
        result.push(101u8);
        result.push(110u8);
        result.push(100u8);
        result.push(111u8);
        result.push(98u8);
        result.push(106u8);
        assert(result@ =~= indirect_bytes(self.spec_metadata(), self.spec_data()));
        result
    }

    /// Reference to the object: `<number> <generation> R`.
    fn reference(&self) -> (r: Vec<u8>)
        ensures
            r@ == reference_bytes(
                written_number(self.spec_metadata()),
                self.spec_metadata().generation as nat,
            ),
    {
        let meta = self.metadata();
        let number: usize = match meta.number {
            Some(n) => n,
            None => 0,
        };
        let mut result: Vec<u8> = Vec::new();
        push_decimal(&mut result, number as u64);
        result.push(32u8);
        push_decimal(&mut result, meta.generation as u64);
        result.push(32u8);
        result.push(82u8);
        assert(result@ =~= reference_bytes(
            written_number(self.spec_metadata()),
            self.spec_metadata().generation as nat,
        ));
        result
    }

    /// Whether the object may go into an object stream (PDF 1.5+): only generation 0
    /// objects may.
    fn compressible(&self) -> (b: bool)
        ensures
            b == (self.spec_metadata().generation == 0),
    {
        self.metadata().generation == 0
    }
}

/// A bare object with no data, such as a free slot of the cross-reference table.
#[derive(Debug, Clone)]
pub struct Object {
    pub metadata: PdfMetadata,
}

impl Object {
    pub fn new() -> (o: Self)
        ensures
            o.metadata.number is None,
            o.metadata.offset == 0,
            o.metadata.generation == 0,
            o.metadata.status == ObjectStatus::Free,
    {
        Object { metadata: PdfMetadata::new_free() }
    }
}

impl PdfObject for Object {
    open spec fn spec_metadata(&self) -> PdfMetadata {
        self.metadata
    }

    open spec fn spec_data(&self) -> Seq<u8> {
        Seq::empty()
    }

    fn metadata(&self) -> (m: &PdfMetadata) {
        &self.metadata
    }

    fn metadata_mut(&mut self) -> (m: &mut PdfMetadata) {
        &mut self.metadata
    }

    fn data(&self) -> (d: Vec<u8>) {
        Vec::new()
    }

    fn compressible(&self) -> (b: bool) {
        self.metadata.generation == 0
    }
}

} // verus!
