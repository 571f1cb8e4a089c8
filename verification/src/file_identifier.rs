//! How the first element of the trailer /ID array is chosen.
use vstd::prelude::*;

verus! {

/// The source of the file identifier bytes.
pub enum FileIdentifierMode {
    /// A digest of the document's content.
    ContentHash,
    /// Bytes chosen by the caller.
    Custom(Vec<u8>),
}

} // verus!
