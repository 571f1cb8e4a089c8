use vstd::prelude::*;

use crate::error::PdfError;
use crate::object_ops::{write_bytes, Encode, Serialize, XRefEntry};
use crate::objects::boolean::bool_keyword;
use crate::version::Version;

verus! {

/// A boolean object, encoded as `true` or `false`.
#[derive(Clone)]
pub struct PdfBooleanObject {
    pub value: bool,
}

impl PdfBooleanObject {
    pub fn new(value: bool) -> (o: Self)
        ensures
            o.value == value,
    {
        Self { value }
    }

    pub fn set(&mut self, value: bool)
        ensures
            final(self).value == value,
    {
        self.value = value;
    }
}

impl Encode for PdfBooleanObject {
    open spec fn encodable(&self) -> bool {
        true
    }

    open spec fn encoding(&self, version: Version) -> Seq<u8> {
        bool_keyword(self.value)
    }

    fn encode(&self, _version: Version) -> (r: Result<Vec<u8>, PdfError>) {
        crate::objects::boolean::PdfBooleanObject::new(self.value).encode()
    }
}

impl Serialize for PdfBooleanObject {
    open spec fn serialization(&self, version: Version) -> Seq<u8> {
        self.encoding(version)
    }

    open spec fn xref_entries(&self, version: Version, start: nat) -> Seq<XRefEntry> {
        Seq::empty()
    }

    fn serialize(&self, version: Version, xref: &mut Vec<XRefEntry>, file: &mut Vec<u8>) -> (r: Result<(), PdfError>) {
        match self.encode(version) {
            Ok(v) => {
                write_bytes(file, v);
                assert(xref@ =~= old(xref)@ + Seq::<XRefEntry>::empty());
                Ok(())
            },
            Err(e) => Err(e),
        }
    }
}

} // verus!
