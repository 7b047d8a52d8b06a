//! A polygon corner: point, texture coordinate and normal.

use vstd::prelude::*;
use crate::vector::{Vec2, Vec3};

verus! {

/// A point together with its texture coordinate and normal.
#[derive(Clone, Copy, Debug)]
pub struct Vertex {
    pub point: Vec3,
    pub uv: Vec2,
    pub normal: Vec3,
}

impl Vertex {
    pub open spec fn wf(self) -> bool {
        self.point.wf() && self.uv.wf() && self.normal.wf()
    }

    pub open spec fn in_range(self, b: int) -> bool {
        self.point.in_range(b) && self.uv.in_range(b) && self.normal.in_range(b)
    }

    pub fn new(point: Vec3, uv: Vec2, normal: Vec3) -> (r: Self)
        requires
            point.wf(),
            uv.wf(),
            normal.wf(),
        ensures
            r == (Vertex { point, uv, normal }),
    {
        Vertex { point, uv, normal }
    }
}

} // verus!
