use vstd::prelude::*;
use vstd::utf8::encode_utf8;

use crate::error::PdfError;

verus! {

/// A string object; its encoding is the UTF-8 bytes of its value.
#[derive(Clone)]
pub struct PdfStringObject {
    pub value: String,
    pub object_number: Option<u64>,
    pub generation_number: Option<u16>,
}

impl PdfStringObject {
    pub fn new(value: &str) -> (o: Self)
        ensures
            o.value@ == value@,
            o.object_number is None,
            o.generation_number is None,
    {
        Self { value: crate::strbuf::owned(value), object_number: None, generation_number: None }
    }

    pub fn with_object_number(self, value: u64) -> (o: Self)
        ensures
            o.object_number == Some(value),
            o.value@ == self.value@,
            o.generation_number == self.generation_number,
    {
        Self { object_number: Some(value), ..self }
    }

    pub fn with_generation_number(self, value: u16) -> (o: Self)
        ensures
            o.generation_number == Some(value),
            o.value@ == self.value@,
            o.object_number == self.object_number,
    {
        Self { generation_number: Some(value), ..self }
    }

    pub fn encode(&self) -> (r: Result<Vec<u8>, PdfError>)
        ensures
            r matches Ok(v) && v@ == encode_utf8(self.value@),
    {
        Ok(vstd::slice::slice_to_vec(self.value.as_str().as_bytes()))
    }
}

} // verus!
