//! Shading types.
use vstd::prelude::*;

verus! {

/// The kinds of shading; the /ShadingType entry holds the number of each.
#[derive(Debug, Clone, Copy, PartialEq, Eq, Structural)]
pub enum ShadingType {
    Function,
    Axial,
    Radial,
    FreeFormGouraud,
    LatticeGouraud,
    CoonsPatch,
    TensorPatch,
}

impl ShadingType {
    /// The /ShadingType number.
    pub fn value(&self) -> (v: i64)
        ensures
            v == (match *self {
                ShadingType::Function => 1i64,
                ShadingType::Axial => 2i64,
                ShadingType::Radial => 3i64,
                ShadingType::FreeFormGouraud => 4i64,
                ShadingType::LatticeGouraud => 5i64,
                ShadingType::CoonsPatch => 6i64,
                ShadingType::TensorPatch => 7i64,
            }),
    {
        match self {
            ShadingType::Function => 1,
            ShadingType::Axial => 2,
            ShadingType::Radial => 3,
            ShadingType::FreeFormGouraud => 4,
            ShadingType::LatticeGouraud => 5,
            ShadingType::CoonsPatch => 6,
            ShadingType::TensorPatch => 7,
        }
    }
}

} // verus!
