use vstd::prelude::*;

use crate::error::PdfError;

verus! {

/// The null object; its direct encoding is empty.
#[derive(Clone)]
pub struct PdfNullObject {
    pub object_number: Option<u64>,
    pub generation_number: Option<u16>,
}

impl PdfNullObject {
    pub fn new() -> (o: Self)
        ensures
            o.object_number is None,
            o.generation_number is None,
    {
        Self { object_number: None, generation_number: None }
    }

    pub fn encode(&self) -> (r: Result<Vec<u8>, PdfError>)
        ensures
            r matches Ok(v) && v@ == Seq::<u8>::empty(),
    {
        Ok(Vec::new())
    }
}

} // verus!
