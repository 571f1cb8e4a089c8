//! Identity and placement of indirect objects.
use vstd::prelude::*;

use crate::objects::metadata::{Generation, ObjectStatus};

verus! {

/// Constructors of PDF objects.
pub struct Pdf {}

/// Where an object ended up after serialisation: its byte offset and its status.
#[derive(Debug, Clone, PartialEq, Eq, Structural)]
pub struct SerialLocation {
    pub offset: usize,
    pub status: ObjectStatus,
}

impl Default for SerialLocation {
    fn default() -> (l: Self)
        ensures
            l.offset == 0,
            l.status == ObjectStatus::InUse,
    {
        SerialLocation { offset: 0, status: ObjectStatus::InUse }
    }
}

/// The identity of an indirect object: its number (0 is the root, 1 the first object)
/// and its generation.
#[derive(Debug, Clone, PartialEq, Eq, Structural)]
pub struct ObjectId {
    pub number: usize,
    pub generation: Generation,
}

/// When an object is written as an indirect object.
#[derive(Debug, Clone, Copy, PartialEq, Eq, Structural)]
pub enum Indirect {
    Always,
    Never,
    /// When it is referenced from several places or by its object number.
    IfReferenced,
}

} // verus!
