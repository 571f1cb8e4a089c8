use vstd::prelude::*;

use crate::decimal::{decimal_bytes, push_decimal};
use crate::error::PdfError;
use crate::objects::indirect::HostType;

verus! {

/// `<object number> <generation> R`.
pub open spec fn reference_bytes(object_number: nat, generation: nat) -> Seq<u8> {
    decimal_bytes(object_number) + seq![32u8] + decimal_bytes(generation) + seq![32u8, 82u8]
}

/// A reference to an indirect object.
#[derive(Clone)]
pub struct PdfReferenceObject {
    pub host_type: HostType,
    pub object_number: Option<u64>,
}

/// The generation written in a reference: that of a standard object, 0 inside an object stream.
pub open spec fn reference_generation(h: HostType) -> nat {
    match h {
        HostType::Standard { generation_number } => generation_number as nat,
        HostType::ObjectStream { .. } => 0,
    }
}

impl PdfReferenceObject {
    pub fn new(obj_num: u64) -> (o: Self)
        ensures
            o.host_type == (HostType::Standard { generation_number: 0 }),
            o.object_number == Some(obj_num),
    {
        Self { host_type: HostType::Standard { generation_number: 0 }, object_number: Some(obj_num) }
    }

    pub fn serialise(&self) -> (r: Result<Vec<u8>, PdfError>)
        requires
            self.object_number is Some,
        ensures
            r matches Ok(v) && v@ == reference_bytes(
                self.object_number.unwrap() as nat,
                reference_generation(self.host_type),
            ),
    {
        let gen_num: u16 = match &self.host_type {
            HostType::Standard { generation_number } => *generation_number,
            HostType::ObjectStream { .. } => 0,
        };
        let mut vec: Vec<u8> = Vec::new();
        push_decimal(&mut vec, self.object_number.unwrap());
        vec.push(32u8);
        push_decimal(&mut vec, gen_num as u64);
        vec.push(32u8);
        vec.push(82u8);
        assert(vec@ =~= reference_bytes(self.object_number.unwrap() as nat, reference_generation(self.host_type)));
        Ok(vec)
    }
}

} // verus!
