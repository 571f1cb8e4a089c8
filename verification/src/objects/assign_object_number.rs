//! Objects that can be made indirect by giving them an object number.
use vstd::prelude::*;

use crate::object_ops::ObjectOps;

verus! {

/// Objects that can be made indirect by assigning them an object number.
pub trait AssignObjectNumber: Sized {
    /// The object number assigned to the object, if any.
    spec fn assigned_number(&self) -> Option<u64>;

    /// Assigns `value` as the object's number.
    fn set_object_number(&mut self, value: u64)
        ensures
            final(self).assigned_number() == Some(value),
    ;

    /// Takes the next object number from `object_ops` and assigns it.
    fn with_next_object_number(self, object_ops: &mut ObjectOps) -> (r: Self)
        requires
            old(object_ops).last() < u64::MAX,
        ensures
            final(object_ops).last() == old(object_ops).last() + 1,
            r.assigned_number() == Some(final(object_ops).last()),
    {
        let mut this = self;
        let num = object_ops.next_object_number();
        this.set_object_number(num.value());
        this
    }
}

} // verus!
