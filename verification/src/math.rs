//! Spatial payloads.
//!
//! The relay never interprets coordinates: it copies them from an inbound
//! update into the outbound broadcast byte for byte.  Each component is
//! therefore carried as the 32-bit little-endian bit pattern of the wire
//! value, which keeps the codec exact without committing the core to any
//! floating-point reading of it.

use vstd::prelude::*;

verus! {

/// A spatial origin: the bit patterns of the three little-endian 32-bit
/// components in wire order.
#[derive(Clone, Copy, PartialEq, Eq, Structural, Debug)]
pub struct Vector3 {
    pub x: u32,
    pub y: u32,
    pub z: u32,
}

impl Vector3 {
    /// Packs three component bit patterns into a vector.
    pub fn new(x: u32, y: u32, z: u32) -> (r: Self)
        ensures
            r == (Vector3 { x, y, z }),
    {
        Vector3 { x, y, z }
    }
}

} // verus!
