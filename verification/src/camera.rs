//! The camera: maps normalized image coordinates to world-space rays, with a
//! thin-lens depth-of-field model.
//!
//! The vertical field of view is given in degrees; its tangent is computed
//! with truncated sine and cosine series, which are accurate for the moderate
//! fields of view a camera uses.

use vstd::prelude::*;
use crate::fixed::{fadd, fdiv, fmul, fsub, fx_add, fx_div, fx_mul, fx_sub, FX_ONE, FX_TWO};
use crate::ray::{Ray, RayM};
use crate::rng::{in_unit_disk_m, random_in_unit_disk, Sampler};
use crate::vec3::{sv_add, sv_cross, sv_scale, sv_sub, sv_unit, V3, Vec3};

verus! {

/// The constant pi as a fixed-point scalar.
pub const FX_PI: i64 = 205887;
/// The scalar 180, the degree measure of a half turn.
pub const FX_DEG_HALF_TURN: i64 = 11796480;
/// Series coefficient 1/6.
pub const FX_C3: i64 = 10923;
/// Series coefficient 1/120.
pub const FX_C5: i64 = 546;
/// Series coefficient 1/5040.
pub const FX_C7: i64 = 13;
/// Series coefficient 1/24.
pub const FX_D4: i64 = 2731;
/// Series coefficient 1/720.
pub const FX_D6: i64 = 91;
/// Series coefficient 1/2.
pub const FX_D2: i64 = 32768;

/// Truncated sine series: `x (1 - x^2 (1/6 - x^2 (1/120 - x^2 / 5040)))`.
pub open spec fn fx_sin(x: int) -> int {
    let x2 = fx_mul(x, x);
    fx_mul(
        x,
        fx_sub(
            FX_ONE as int,
            fx_mul(x2, fx_sub(FX_C3 as int, fx_mul(x2, fx_sub(FX_C5 as int, fx_mul(x2, FX_C7 as int))))),
        ),
    )
}

/// Truncated cosine series: `1 - x^2 (1/2 - x^2 (1/24 - x^2 / 720))`.
pub open spec fn fx_cos(x: int) -> int {
    let x2 = fx_mul(x, x);
    fx_sub(
        FX_ONE as int,
        fx_mul(x2, fx_sub(FX_D2 as int, fx_mul(x2, fx_sub(FX_D4 as int, fx_mul(x2, FX_D6 as int))))),
    )
}

/// Tangent as the quotient of the truncated series.
pub open spec fn fx_tan(x: int) -> int {
    fx_div(fx_sin(x), fx_cos(x))
}

/// Half the viewport height: the tangent of half the vertical field of view,
/// which is given in degrees.
pub open spec fn spec_half_height(vfov: int) -> int {
    fx_tan(fx_div(fx_div(fx_mul(vfov, FX_PI as int), FX_DEG_HALF_TURN as int), FX_TWO as int))
}

/// Half the viewport width.
pub open spec fn spec_half_width(vfov: int, aspect: int) -> int {
    fx_mul(aspect, spec_half_height(vfov))
}

fn fsin(x: i64) -> (r: i64)
    ensures
        r as int == fx_sin(x as int),
{
    let x2: i64 = fmul(x, x);
    fmul(x, fsub(FX_ONE, fmul(x2, fsub(FX_C3, fmul(x2, fsub(FX_C5, fmul(x2, FX_C7)))))))
}

fn fcos(x: i64) -> (r: i64)
    ensures
        r as int == fx_cos(x as int),
{
    let x2: i64 = fmul(x, x);
    fsub(FX_ONE, fmul(x2, fsub(FX_D2, fmul(x2, fsub(FX_D4, fmul(x2, FX_D6))))))
}

fn ftan(x: i64) -> (r: i64)
    ensures
        r as int == fx_tan(x as int),
{
    fdiv(fsin(x), fcos(x))
}

#[derive(Clone, Copy, Debug, PartialEq, Eq, Structural)]
pub struct Camera {
    pub origin: Vec3,
    pub lower_left_corner: Vec3,
    pub horizontal: Vec3,
    pub vertical: Vec3,
    pub u: Vec3,
    pub v: Vec3,
    pub w: Vec3,
    pub lens_radius: i64,
}

/// The ray the camera casts for image coordinates `(u, v)` once the lens
/// sample `d` is fixed: rays from different lens points converge at the same
/// focal-plane point.
pub open spec fn spec_get_ray(c: Camera, u: int, v: int, d: V3) -> RayM {
    let rd = sv_scale(d, c.lens_radius as int);
    let offset = sv_add(sv_scale(c.u.m(), rd.x), sv_scale(c.v.m(), rd.y));
    RayM {
        orig: sv_add(c.origin.m(), offset),
        dir: sv_sub(
            sv_sub(
                sv_add(
                    sv_add(c.lower_left_corner.m(), sv_scale(c.horizontal.m(), u)),
                    sv_scale(c.vertical.m(), v),
                ),
                c.origin.m(),
            ),
            offset,
        ),
    }
}

impl Camera {
    pub fn new(
        lookfrom: Vec3,
        lookat: Vec3,
        vup: Vec3,
        vfov: i64,
        aspect: i64,
        aperture: i64,
        focus_dist: i64,
    ) -> (r: Camera)
        ensures
            r.origin == lookfrom,
            r.w.m() == sv_unit(sv_sub(lookfrom.m(), lookat.m())),
            r.u.m() == sv_unit(sv_cross(vup.m(), r.w.m())),
            r.v.m() == sv_cross(r.w.m(), r.u.m()),
            r.lens_radius as int == fx_div(aperture as int, FX_TWO as int),
            r.lower_left_corner.m() == sv_sub(
                sv_sub(
                    sv_sub(
                        lookfrom.m(),
                        sv_scale(
                            r.u.m(),
                            fx_mul(spec_half_width(vfov as int, aspect as int), focus_dist as int),
                        ),
                    ),
                    sv_scale(r.v.m(), fx_mul(spec_half_height(vfov as int), focus_dist as int)),
                ),
                sv_scale(r.w.m(), focus_dist as int),
            ),
            r.horizontal.m() == sv_scale(
                r.u.m(),
                fx_mul(
                    fx_mul(FX_TWO as int, spec_half_width(vfov as int, aspect as int)),
                    focus_dist as int,
                ),
            ),
            r.vertical.m() == sv_scale(
                r.v.m(),
                fx_mul(fx_mul(FX_TWO as int, spec_half_height(vfov as int)), focus_dist as int),
            ),
    {
        let lens_radius: i64 = fdiv(aperture, FX_TWO);
        let theta: i64 = fdiv(fmul(vfov, FX_PI), FX_DEG_HALF_TURN);
        let half_height: i64 = ftan(fdiv(theta, FX_TWO));
        let half_width: i64 = fmul(aspect, half_height);

        let origin = lookfrom;
        let w = Vec3::make_unit_vec(lookfrom.minus(&lookat));
        let u = Vec3::make_unit_vec(Vec3::cross(vup, w));
        let v = Vec3::cross(w, u);

        let lower_left_corner = origin
            .minus(&u.scale(fmul(half_width, focus_dist)))
            .minus(&v.scale(fmul(half_height, focus_dist)))
            .minus(&w.scale(focus_dist));
        let horizontal = u.scale(fmul(fmul(FX_TWO, half_width), focus_dist));
        let vertical = v.scale(fmul(fmul(FX_TWO, half_height), focus_dist));

        Camera { origin, lower_left_corner, horizontal, vertical, u, v, w, lens_radius }
    }

    /// The camera ray for normalized image coordinates `(u, v)`, with a lens
    /// offset sampled inside the unit disk for depth of field.
    pub fn get_ray(&self, u: i64, v: i64, smp: &mut Sampler) -> (r: Ray)
        ensures
            exists|d: V3|
                in_unit_disk_m(d) && r.m() == spec_get_ray(*self, u as int, v as int, d),
            final(smp).seeded == old(smp).seeded,
    {
        let dsk = random_in_unit_disk(smp);
        let rd = dsk.scale(self.lens_radius);
        let offset = self.u.scale(rd.x()).plus(&self.v.scale(rd.y()));
        let r = Ray::new(
            self.origin.plus(&offset),
            self.lower_left_corner
                .plus(&self.horizontal.scale(u))
                .plus(&self.vertical.scale(v))
                .minus(&self.origin)
                .minus(&offset),
        );
        proof {
            assert(in_unit_disk_m(dsk.m()) && r.m() == spec_get_ray(*self, u as int, v as int, dsk.m()));
        }
        r
    }
}

} // verus!
