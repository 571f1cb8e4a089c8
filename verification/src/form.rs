//! Form XObjects, by their dictionary.
use vstd::prelude::*;

use crate::error::PdfError;
use crate::keyed::has_key;
use crate::objects::pdf_dictionary::{duplicate_key_message, PdfDictionaryObject};
use crate::objects::pdf_string::PdfStringObject;

verus! {

pub struct Form {
    pub dict: PdfDictionaryObject<PdfStringObject>,
}

impl Form {
    /// A form with an empty dictionary.
    pub fn new() -> (r: Result<Self, PdfError>)
        ensures
            r matches Ok(f) && f.dict@ == Seq::<(Seq<char>, PdfStringObject)>::empty(),
    {
        Ok(Self { dict: PdfDictionaryObject::new() })
    }

    /// Adds the /Type entry; an error when the dictionary has one already.
    pub fn with_type(self, type_str: &str) -> (r: Result<Self, PdfError>)
        ensures
            has_key(self.dict@, "Type"@) ==> (r matches Err(e) && e matches PdfError::StructureError(m)
                && m@ == duplicate_key_message("Type"@)),
            !has_key(self.dict@, "Type"@) ==> (r matches Ok(f) && f.dict@.len() == self.dict@.len() + 1
                && f.dict@.drop_last() == self.dict@ && f.dict@.last().0 == "Type"@
                && f.dict@.last().1.value@ == type_str@),
    {
        let mut this = self;
        match this.dict.add("Type", PdfStringObject::new(type_str)) {
            Ok(()) => {
                proof {
                    assert(this.dict@.drop_last() =~= self.dict@);
                }
                Ok(this)
            },
            Err(e) => Err(e),
        }
    }
}

} // verus!
