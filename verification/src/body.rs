//! The body of a PDF file: its sequence of indirect objects, numbered from 1.
use vstd::prelude::*;

use crate::object_ops::Serialize;
use crate::version::Version;

verus! {

pub struct Body {
    pub last_object_number: u64,
}

impl Body {
    pub fn new() -> (b: Self)
        ensures
            b.last_object_number == 0,
    {
        Body { last_object_number: 0 }
    }

    /// Counts an indirect object of the body, serialising it.
    pub fn add_indirect_object<V: Serialize>(&mut self, object: V)
        requires
            old(self).last_object_number < u64::MAX,
            object.encodable(),
        ensures
            final(self).last_object_number == old(self).last_object_number + 1,
    {
        self.last_object_number = self.last_object_number + 1;
        let mut xref = Vec::new();
        let mut serialised: Vec<u8> = Vec::new();
        let _ = object.serialize(Version::default(), &mut xref, &mut serialised);
    }

    /// Allocates the next object number.
    pub fn next_num(&mut self) -> (n: u64)
        requires
            old(self).last_object_number < u64::MAX,
        ensures
            n == old(self).last_object_number + 1,
            final(self).last_object_number == n,
    {
        self.last_object_number = self.last_object_number + 1;
        self.last_object_number
    }
}

} // verus!
