//! Geometry: the hit record produced by a ray/surface intersection query.

pub mod list;
pub mod sphere;

use vstd::prelude::*;
use crate::material::Material;
use crate::ray::Ray;
use crate::vec3::{V3, Vec3};

verus! {

/// An object a ray can hit.  Each implementor states in `hit_post` what a
/// query of it returns; `hit` promises exactly that.
pub trait Hitable {
    /// What the result of a hit query against this object means.
    spec fn hit_post(&self, r: Ray, min: i64, max: i64, res: Option<HitRecord>) -> bool;

    /// The nearest intersection with `r` inside the open interval
    /// `(min, max)`, or `None`.
    fn hit(&self, r: &Ray, min: i64, max: i64) -> (res: Option<HitRecord>)
        ensures
            self.hit_post(*r, min, max, res),
    ;
}

/// The mathematical model of a hit record.
pub ghost struct HitM {
    pub t: int,
    pub p: V3,
    pub normal: V3,
    pub mat: Material,
}

#[derive(Clone, Copy, Debug, PartialEq, Eq, Structural)]
pub struct HitRecord {
    pub t: i64,
    pub p: Vec3,
    pub normal: Vec3,
    pub mat: Material,
}

impl HitRecord {
    /// The model of this record.
    pub open spec fn m(self) -> HitM {
        HitM { t: self.t as int, p: self.p.m(), normal: self.normal.m(), mat: self.mat }
    }

    pub fn new(t: i64, p: Vec3, normal: Vec3, mat: Material) -> (r: HitRecord)
        ensures
            r.m() == (HitM { t: t as int, p: p.m(), normal: normal.m(), mat }),
    {
        HitRecord { t, p, normal, mat }
    }
}

/// The model of an optional hit record.
pub open spec fn opt_m(o: Option<HitRecord>) -> Option<HitM> {
    match o {
        Option::Some(h) => Option::Some(h.m()),
        Option::None => Option::None,
    }
}

} // verus!
