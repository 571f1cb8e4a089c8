use vstd::prelude::*;

use crate::error::PdfError;
use crate::object_ops::{write_bytes, Encode, Serialize, XRefEntry};
use crate::version::Version;

verus! {

/// The null object, encoded as the keyword `null`.
#[derive(Clone)]
pub struct PdfNullObject {}

impl PdfNullObject {
    pub fn new() -> (o: Self) {
        Self {}
    }
}

impl Encode for PdfNullObject {
    open spec fn encodable(&self) -> bool {
        true
    }

    open spec fn encoding(&self, version: Version) -> Seq<u8> {
        seq![110u8, 117u8, 108u8, 108u8]
    }

    fn encode(&self, _version: Version) -> (r: Result<Vec<u8>, PdfError>) {
        let mut v: Vec<u8> = Vec::new();
        v.push(110u8);
        v.push(117u8);
        v.push(108u8);
        v.push(108u8);
        assert(v@ =~= seq![110u8, 117u8, 108u8, 108u8]);
        Ok(v)
    }
}

impl Serialize for PdfNullObject {
    open spec fn serialization(&self, version: Version) -> Seq<u8> {
        self.encoding(version)
    }

    open spec fn xref_entries(&self, version: Version, start: nat) -> Seq<XRefEntry> {
        Seq::empty()
    }

    fn serialize(&self, version: Version, xref: &mut Vec<XRefEntry>, file: &mut Vec<u8>) -> (r: Result<(), PdfError>) {
        match self.encode(version) {
            Ok(v) => {
                write_bytes(file, v);
                assert(xref@ =~= old(xref)@ + Seq::<XRefEntry>::empty());
                Ok(())
            },
            Err(e) => Err(e),
        }
    }
}

} // verus!
