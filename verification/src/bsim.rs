//! The polarity and the operating regions of a MOSFET.

use vstd::prelude::*;

verus! {

/// The polarity of a MOSFET.
#[derive(Debug, Clone, Copy, PartialEq, Eq)]
pub enum MosType {
    Nmos,
    Pmos,
}

impl Default for MosType {
    fn default() -> (t: Self)
        ensures
            t is Nmos,
    {
        MosType::Nmos
    }
}

/// The operating region of a MOSFET.
#[derive(Debug, Clone, Copy, PartialEq, Eq)]
pub enum MosRegion {
    /// The controlling voltage does not exceed the threshold.
    Cutoff,
    /// Above the threshold, with the drain below saturation.
    Linear,
    /// Above the threshold, with the drain at or above saturation.
    Saturation,
}

impl Default for MosRegion {
    fn default() -> (r: Self)
        ensures
            r is Cutoff,
    {
        MosRegion::Cutoff
    }
}

} // verus!
