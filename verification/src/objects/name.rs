//! Name objects: atomic symbols introduced by a solidus (`/`), which is not part of the name.
use vstd::prelude::*;
use vstd::utf8::encode_utf8;

use crate::error::PdfError;

verus! {

#[derive(Clone)]
pub struct PdfNameObject {
    pub value: String,
    pub object_number: Option<u64>,
    pub generation_number: Option<u16>,
}

impl PdfNameObject {
    pub fn new(value: &str) -> (o: Self)
        ensures
            o.value@ == value@,
            o.object_number is None,
            o.generation_number is None,
    {
        Self { value: crate::strbuf::owned(value), object_number: None, generation_number: None }
    }

    pub fn with_object_number(self, value: u64) -> (o: Self)
        ensures
            o.object_number == Some(value),
            o.value@ == self.value@,
            o.generation_number == self.generation_number,
    {
        Self { object_number: Some(value), ..self }
    }

    pub fn with_generation_number(self, value: u16) -> (o: Self)
        ensures
            o.generation_number == Some(value),
            o.value@ == self.value@,
            o.object_number == self.object_number,
    {
        Self { generation_number: Some(value), ..self }
    }

    /// `/` followed by the UTF-8 bytes of the name.
    pub fn encode(&self) -> (r: Result<Vec<u8>, PdfError>)
        ensures
            r matches Ok(v) && v@ == seq![47u8] + encode_utf8(self.value@),
    {
        let mut v: Vec<u8> = Vec::new();
        v.push(47u8);
        let bytes = self.value.as_str().as_bytes();
        let mut i: usize = 0;
        while i < bytes.len()
            invariant
                i <= bytes@.len(),
                v@ == seq![47u8] + bytes@.take(i as int),
            decreases bytes@.len() - i,
        {
            v.push(bytes[i]);
            i = i + 1;
            assert(v@ =~= seq![47u8] + bytes@.take(i as int));
        }
        assert(bytes@.take(i as int) =~= bytes@);
        Ok(v)
    }
}

} // verus!
