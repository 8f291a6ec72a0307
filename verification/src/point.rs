use vstd::prelude::*;

verus! {

/// The bit pattern of the IEEE-754 double `+infinity`, used for the
/// z-coordinate of the sentinel vertex ("point at infinity").
pub const INF_BITS: u64 = 0x7ff0000000000000;

/// A 3-component coordinate. Each component carries the bit pattern of an
/// IEEE-754 double. The mesh logic never interprets the bits itself: every
/// geometric question is answered by the caller-supplied orientation
/// predicate, so the components are opaque scalars here.
#[derive(Debug, Clone, Copy, PartialEq, Eq, Structural)]
pub struct Vec3 {
    pub x: u64,
    pub y: u64,
    pub z: u64,
}

impl Vec3 {
    /// A point on the x-axis; `0` is the bit pattern of `+0.0`.
    pub fn x(x: u64) -> (r: Vec3)
        ensures
            r == (Vec3 { x, y: 0, z: 0 }),
    {
        Vec3 { x, y: 0, z: 0 }
    }

    pub fn xy(x: u64, y: u64) -> (r: Vec3)
        ensures
            r == (Vec3 { x, y, z: 0 }),
    {
        Vec3 { x, y, z: 0 }
    }

    pub fn xyz(x: u64, y: u64, z: u64) -> (r: Vec3)
        ensures
            r == (Vec3 { x, y, z }),
    {
        Vec3 { x, y, z }
    }
}

} // verus!
