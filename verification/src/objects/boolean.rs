use vstd::prelude::*;

use crate::error::PdfError;

verus! {

/// The keyword of a boolean value.
pub open spec fn bool_keyword(value: bool) -> Seq<u8> {
    if value {
        seq![116u8, 114u8, 117u8, 101u8]
    } else {
        seq![102u8, 97u8, 108u8, 115u8, 101u8]
    }
}

/// A boolean object: `true` or `false`.
#[derive(Clone)]
pub struct PdfBooleanObject {
    pub value: bool,
    pub object_number: Option<u64>,
    pub generation_number: Option<u16>,
}

impl PdfBooleanObject {
    pub fn new(value: bool) -> (o: Self)
        ensures
            o.value == value,
            o.object_number is None,
            o.generation_number is None,
    {
        Self { value, object_number: None, generation_number: None }
    }

    pub fn with_object_number(self, value: u64) -> (o: Self)
        ensures
            o.object_number == Some(value),
            o.value == self.value,
            o.generation_number == self.generation_number,
    {
        Self { object_number: Some(value), ..self }
    }

    pub fn with_generation_number(self, value: u16) -> (o: Self)
        ensures
            o.generation_number == Some(value),
            o.value == self.value,
            o.object_number == self.object_number,
    {
        Self { generation_number: Some(value), ..self }
    }

    pub fn set(&mut self, value: bool)
        ensures
            final(self).value == value,
            final(self).object_number == old(self).object_number,
            final(self).generation_number == old(self).generation_number,
    {
        self.value = value;
    }

    pub fn encode(&self) -> (r: Result<Vec<u8>, PdfError>)
        ensures
            r matches Ok(v) && v@ == bool_keyword(self.value),
    {
        let mut v: Vec<u8> = Vec::new();
        if self.value {
            v.push(116u8);
            v.push(114u8);
            v.push(117u8);
            v.push(101u8);
        } else {
            v.push(102u8);
            v.push(97u8);
            v.push(108u8);
            v.push(115u8);
            v.push(101u8);
        }
        assert(v@ =~= bool_keyword(self.value));
        Ok(v)
    }
}

} // verus!
