use vstd::prelude::*;

verus! {

/// Where an indirect object is stored.
#[derive(Clone, Debug, PartialEq, Eq, Structural)]
pub enum HostType {
    /// At an offset of the file, with a generation number.
    Standard { generation_number: u16 },
    /// Inside an object stream (PDF 1.5+), by the object number of that stream.
    ObjectStream { stream_obj_num: usize },
}

} // verus!
