use vstd::prelude::*;

use crate::decimal::{decimal_bytes, push_decimal};
use crate::error::PdfError;
use crate::object_ops::{write_bytes, Encode, Serialize, XRefEntry};
use crate::object_number::ObjectNumber;
use crate::version::Version;

verus! {

/// Where an indirect object is stored.
#[derive(Clone, Debug, PartialEq, Eq, Structural)]
pub enum HostType {
    /// At an offset of the file, with a generation number.
    Standard { generation_number: u16 },
    /// Inside an object stream (PDF 1.5+), by the object number of that stream.
    Stream { stream_obj_num: usize },
}

/// The generation written in a reference: that of a standard object, 0 inside a stream.
pub open spec fn host_generation(h: HostType) -> nat {
    match h {
        HostType::Standard { generation_number } => generation_number as nat,
        HostType::Stream { .. } => 0,
    }
}

/// A reference, of generation 0, to the object with the number `n`.
pub open spec fn reference_to(n: ObjectNumber) -> PdfReferenceObject {
    PdfReferenceObject { host_type: HostType::Standard { generation_number: 0 }, object_number: Some(n) }
}

/// A reference to an indirect object: `<number> <generation> R`.
#[derive(Clone)]
pub struct PdfReferenceObject {
    pub host_type: HostType,
    pub object_number: Option<ObjectNumber>,
}

impl PdfReferenceObject {
    pub fn new(obj_num: ObjectNumber) -> (o: Self)
        ensures
            o.host_type == (HostType::Standard { generation_number: 0 }),
            o.object_number == Some(obj_num),
    {
        Self { host_type: HostType::Standard { generation_number: 0 }, object_number: Some(obj_num) }
    }
}

impl Encode for PdfReferenceObject {
    /// A reference is written by its object number.
    open spec fn encodable(&self) -> bool {
        self.object_number is Some
    }

    /// `<number> <generation> R`
    open spec fn encoding(&self, version: Version) -> Seq<u8> {
        crate::objects::reference::reference_bytes(
            self.object_number.unwrap().0 as nat,
            host_generation(self.host_type),
        )
    }

    fn encode(&self, _version: Version) -> (r: Result<Vec<u8>, PdfError>) {
        let gen_num: u16 = match &self.host_type {
            HostType::Standard { generation_number } => *generation_number,
            HostType::Stream { .. } => 0,
        };
        let mut vec: Vec<u8> = Vec::new();
        push_decimal(&mut vec, self.object_number.unwrap().value());
        vec.push(32u8);
        push_decimal(&mut vec, gen_num as u64);
        vec.push(32u8);
        vec.push(82u8);
        assert(vec@ =~= crate::objects::reference::reference_bytes(
            self.object_number.unwrap().0 as nat, host_generation(self.host_type)));
        Ok(vec)
    }
}

impl Serialize for PdfReferenceObject {
    open spec fn serialization(&self, version: Version) -> Seq<u8> {
        self.encoding(version)
    }

    open spec fn xref_entries(&self, version: Version, start: nat) -> Seq<XRefEntry> {
        Seq::empty()
    }

    fn serialize(&self, version: Version, xref: &mut Vec<XRefEntry>, file: &mut Vec<u8>) -> (r: Result<(), PdfError>) {
        match self.encode(version) {
            Ok(v) => {
                write_bytes(file, v);
                assert(xref@ =~= old(xref)@ + Seq::<XRefEntry>::empty());
                Ok(())
            },
            Err(e) => Err(e),
        }
    }
}

} // verus!
