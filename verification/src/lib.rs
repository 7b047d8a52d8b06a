//! A triangle-mesh geometry toolkit over exact rational coordinates:
//! point/plane classification, ray- and segment-based intersection tests,
//! plane-slicing of triangles and polygons with attribute interpolation, and
//! separation of a mesh into its connected pieces.

use vstd::prelude::*;

pub mod rat;
pub mod side;
pub mod vector;
pub mod plane;
pub mod polygon;
pub mod traits;
pub mod triangle;
pub mod trimesh;
pub mod vertex;

verus! {

use crate::vector::Vec3;

/// A line segment from `[0]` to `[1]`.
pub type Segment = [Vec3; 2];

/// A ray at `.0` pointing towards `.1`.
pub type Ray = (Vec3, Vec3);

} // verus!
