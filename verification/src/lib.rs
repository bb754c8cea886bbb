//! Core of an offline physically based renderer, built on exact arithmetic.
//!
//! Scene geometry lives on a bounded integer grid: positions and directions
//! are integer vectors, and every derived quantity (hit parameters,
//! barycentric coordinates, interpolated surface data) is an exact rational.
//! This makes the geometric predicates — ray/triangle intersection, the
//! slab test against axis-aligned boxes, and the bounding-volume hierarchy
//! built from them — exact: the BVH provably returns the same closest hit
//! as a linear scan over all triangles.
//!
//! Floating-point concerns (camera ray generation, hemisphere and facet
//! sampling maps, tone mapping, image I/O) stay outside this crate; callers
//! quantise their scenes onto the grid and inject sampled directions as
//! plain values.

use vstd::prelude::*;

pub mod accelerator;
pub mod geometry;
pub mod integrator;
pub mod light;
pub mod loader;
pub mod material;
pub mod rat;
pub mod scene;
pub mod spectrum;
pub mod texture;
pub mod vec3;

verus! {

/// Largest magnitude allowed for a scene coordinate (positions and
/// direction components; ray directions may span twice this, as the
/// difference of two grid points). The grid is pinned by the deepest
/// exact computation, the Gram-Schmidt tangent of an interpolated
/// surface sample: its numerators are degree twelve in the grid bound
/// (a barycentric denominator is degree four, and the orthogonalisation
/// cubes it), and twelve factors of 512 with their constant margins are
/// all `i128` holds. The intersection predicates alone would admit a
/// far finer grid.
pub const COORD_LIMIT: i128 = 256;

} // verus!
