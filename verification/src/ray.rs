//! A ray: origin plus direction, evaluated as `origin + t * direction`.

use vstd::prelude::*;
use crate::vec3::{sv_add, sv_scale, V3, Vec3};

verus! {

/// The mathematical model of a ray.
pub ghost struct RayM {
    pub orig: V3,
    pub dir: V3,
}

#[derive(Clone, Copy, Debug, PartialEq, Eq, Structural)]
pub struct Ray {
    pub a: Vec3,
    pub b: Vec3,
}

impl Ray {
    /// The model of this ray.
    pub open spec fn m(self) -> RayM {
        RayM { orig: self.a.m(), dir: self.b.m() }
    }

    pub fn new(a: Vec3, b: Vec3) -> (r: Ray)
        ensures
            r.m() == (RayM { orig: a.m(), dir: b.m() }),
    {
        Ray { a, b }
    }

    pub fn origin(&self) -> (r: Vec3)
        ensures
            r.m() == self.m().orig,
    {
        self.a
    }

    pub fn direction(&self) -> (r: Vec3)
        ensures
            r.m() == self.m().dir,
    {
        self.b
    }

    /// The point `origin + t * direction`.
    pub fn point_at_paramter(&self, t: i64) -> (r: Vec3)
        ensures
            r.m() == sv_add(self.m().orig, sv_scale(self.m().dir, t as int)),
    {
        self.a.plus(&self.b.scale(t))
    }
}

} // verus!
