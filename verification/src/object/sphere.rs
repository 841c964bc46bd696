//! The sphere primitive and its ray-intersection test.

use vstd::prelude::*;
use crate::fixed::{fdiv, fmul, fneg, fsqrt, fsub, fx_div, fx_mul, fx_neg, fx_sqrt, fx_sub};
use crate::material::Material;
use crate::object::{opt_m, HitM, HitRecord, Hitable};
use crate::ray::Ray;
use crate::vec3::{sv_add, sv_div_s, sv_dot, sv_scale, sv_sub, V3, Vec3};

verus! {

#[derive(Clone, Copy, Debug, PartialEq, Eq, Structural)]
pub struct Sphere {
    pub center: Vec3,
    pub radius: i64,
    pub mat: Material,
}

/// The intersection of a ray with a sphere, restricted to the open parameter
/// interval `(tmin, tmax)`.  The quadratic `|ro + t rd - center|^2 = radius^2`
/// is solved in half-coefficient form and only the nearer root is tried: a
/// viewer inside the sphere whose near root falls before `tmin` is reported
/// as a miss.
pub open spec fn sphere_hit_m(s: Sphere, ro: V3, rd: V3, tmin: int, tmax: int) -> Option<HitM> {
    let oc = sv_sub(ro, s.center.m());
    let a = sv_dot(rd, rd);
    let b = sv_dot(oc, rd);
    let c = fx_sub(sv_dot(oc, oc), fx_mul(s.radius as int, s.radius as int));
    let delta = fx_sub(fx_mul(b, b), fx_mul(a, c));
    if delta > 0 {
        let t = fx_div(fx_sub(fx_neg(b), fx_sqrt(delta)), a);
        if tmin < t && t < tmax {
            let p = sv_add(ro, sv_scale(rd, t));
            Option::Some(
                HitM {
                    t,
                    p,
                    normal: sv_div_s(sv_sub(p, s.center.m()), s.radius as int),
                    mat: s.mat,
                },
            )
        } else {
            Option::None
        }
    } else {
        Option::None
    }
}

impl Sphere {
    /// The data-model invariant: a positive radius and a well-formed material.
    pub open spec fn wf(self) -> bool {
        self.radius > 0 && self.mat.wf()
    }

    pub fn new(center: Vec3, radius: i64, mat: Material) -> (r: Sphere)
        ensures
            r == (Sphere { center, radius, mat }),
    {
        Sphere { center, radius, mat }
    }
}

impl Hitable for Sphere {
    open spec fn hit_post(&self, r: Ray, min: i64, max: i64, res: Option<HitRecord>) -> bool {
        opt_m(res) == sphere_hit_m(*self, r.m().orig, r.m().dir, min as int, max as int)
    }

    /// The nearest intersection of `r` with this sphere inside `(min, max)`:
    /// the quadratic's near root, accepted only strictly inside the interval.
    fn hit(&self, r: &Ray, min: i64, max: i64) -> (res: Option<HitRecord>) {
        let oc = r.origin().minus(&self.center);
        let a: i64 = Vec3::dot(r.direction(), r.direction());
        let b: i64 = Vec3::dot(oc, r.direction());
        let c: i64 = fsub(Vec3::dot(oc, oc), fmul(self.radius, self.radius));
        let delta: i64 = fsub(fmul(b, b), fmul(a, c));
        if delta > 0 {
            let tmp: i64 = fdiv(fsub(fneg(b), fsqrt(delta)), a);
            if tmp < max && tmp > min {
                let t: i64 = tmp;
                let p = r.point_at_paramter(t);
                let normal = p.minus(&self.center).div_scalar(self.radius);
                return Option::Some(HitRecord::new(t, p, normal, self.mat));
            }
        }
        Option::None
    }
}

} // verus!
