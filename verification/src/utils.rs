use vstd::prelude::*;

use crate::mesh::Triangle;

verus! {

/// The classification of the turn of three points: clockwise, degenerate
/// (collinear within the predicate's adaptive epsilon), or counter-clockwise.
///
/// The predicate itself works on floating-point coordinates and is supplied
/// by the caller of the triangulation routines; the mesh logic only ever
/// branches on this value.
#[derive(Debug, Clone, Copy, PartialEq, Eq, Structural)]
pub enum TriOrient {
    CW,
    Flat,
    CCW,
}

/// The order `CW < Flat < CCW` that the walk and legalization logic uses.
pub open spec fn orient_rank(o: TriOrient) -> int {
    match o {
        TriOrient::CW => 0,
        TriOrient::Flat => 1,
        TriOrient::CCW => 2,
    }
}

impl TriOrient {
    /// `self <= other` in the order `CW < Flat < CCW`.
    pub fn le(self, other: TriOrient) -> (r: bool)
        ensures
            r == (orient_rank(self) <= orient_rank(other)),
    {
        match self {
            TriOrient::CW => true,
            TriOrient::Flat => !matches!(other, TriOrient::CW),
            TriOrient::CCW => matches!(other, TriOrient::CCW),
        }
    }

    pub fn is_cw(self) -> (r: bool)
        ensures
            r == (self == TriOrient::CW),
    {
        matches!(self, TriOrient::CW)
    }

    pub fn is_flat(self) -> (r: bool)
        ensures
            r == (self == TriOrient::Flat),
    {
        matches!(self, TriOrient::Flat)
    }
}

/// Reorders a candidate triangle so that it is not clockwise: when the
/// supplied classification of its corner points is `CW`, the first two
/// vertex references are swapped (the adjacency array is left as it is).
pub fn to_ccw(tri: Triangle, tri_orient: TriOrient) -> (r: Triangle)
    ensures
        tri_orient == TriOrient::CW ==> r == (Triangle {
            vertices: [tri.vertices[1], tri.vertices[0], tri.vertices[2]],
            adjacent: tri.adjacent,
        }),
        tri_orient != TriOrient::CW ==> r == tri,
{
    if matches!(tri_orient, TriOrient::CW) {
        Triangle { vertices: [tri.vertices[1], tri.vertices[0], tri.vertices[2]], adjacent: tri.adjacent }
    } else {
        tri
    }
}

} // verus!
