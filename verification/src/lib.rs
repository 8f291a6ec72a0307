//! An incremental 2D triangulation engine: a triangle mesh store with
//! explicit topological adjacency, point location by a randomized walk,
//! face splitting, hull extension and edge-flip based local re-triangulation.
//!
//! Coordinates are carried as opaque IEEE-754 bit patterns; every geometric
//! decision goes through an orientation predicate supplied by the caller, so
//! that the combinatorial mesh logic is verified for every behaviour of the
//! predicate.

pub mod id;
pub mod point;
pub mod utils;
pub mod mesh;
pub mod algo;
pub mod triangulation;
pub mod export;
pub mod session;
pub mod ext;
