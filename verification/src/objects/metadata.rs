//! Identity and status of indirect objects.
use vstd::prelude::*;

verus! {

/// Status of an object in the cross-reference table.
#[derive(Debug, Clone, Copy, PartialEq, Eq, Structural)]
pub enum ObjectStatus {
    /// Deleted or never used.
    Free,
    /// A normal, active object.
    InUse,
}

impl ObjectStatus {
    /// The status character of the cross-reference table: `f` or `n`.
    pub fn as_char(&self) -> (c: char)
        ensures
            c == (match *self {
                ObjectStatus::Free => 'f',
                ObjectStatus::InUse => 'n',
            }),
    {
        match self {
            ObjectStatus::Free => 'f',
            ObjectStatus::InUse => 'n',
        }
    }
}

impl Default for ObjectStatus {
    fn default() -> (s: Self)
        ensures
            s == ObjectStatus::InUse,
    {
        ObjectStatus::InUse
    }
}

/// Generation numbers: 65535 for the root free object, 0 for new objects.
#[derive(Debug, Clone, Copy, PartialEq, Eq, Structural)]
pub enum Generation {
    Root,
    Normal,
}

impl Generation {
    pub fn as_u16(&self) -> (g: u16)
        ensures
            g == (match *self {
                Generation::Root => 65535u16,
                Generation::Normal => 0u16,
            }),
    {
        match self {
            Generation::Root => 65535,
            Generation::Normal => 0,
        }
    }
}

/// Object number (none for unassigned objects), generation and status of an object.
#[derive(Debug, Clone, PartialEq, Eq, Structural)]
pub struct PdfMetadata {
    pub object_number: Option<usize>,
    pub generation_number: Generation,
    pub status: ObjectStatus,
}

impl PdfMetadata {
    pub fn new() -> (m: Self)
        ensures
            m.object_number is None,
            m.generation_number == Generation::Normal,
            m.status == ObjectStatus::InUse,
    {
        PdfMetadata { object_number: None, generation_number: Generation::Normal, status: ObjectStatus::InUse }
    }

    pub fn new_free() -> (m: Self)
        ensures
            m.object_number is None,
            m.generation_number == Generation::Normal,
            m.status == ObjectStatus::Free,
    {
        let mut pdf = PdfMetadata::new();
        pdf.status = ObjectStatus::Free;
        pdf
    }
}

impl Default for PdfMetadata {
    fn default() -> (m: Self)
        ensures
            m.object_number is None,
            m.generation_number == Generation::Normal,
            m.status == ObjectStatus::InUse,
    {
        Self::new()
    }
}

} // verus!
