//! Surface materials and their scattering behaviour.
//!
//! A material, given an incoming ray and a hit record, either absorbs the ray
//! or produces an attenuation color and a scattered ray.  The contract of
//! `scatter` pins everything down except the random sample drawn inside the
//! unit sphere, which is existentially quantified.

use vstd::prelude::*;
use crate::fixed::{
    fadd, fdiv, fmul, fneg, fsqrt, fsub, fx_add, fx_div, fx_mul, fx_sqrt, fx_sub, FX_ONE, FX_TWO,
};
use crate::object::{HitM, HitRecord};
use crate::ray::{Ray, RayM};
use crate::rng::{in_unit_sphere_m, random_in_unit_sphere, Sampler};
use crate::vec3::{sv_add, sv_dot, sv_neg, sv_scale, sv_sub, sv_unit, V3, Vec3};

verus! {

/// A surface that can scatter an incoming ray.  Each implementor states in
/// `scatter_post` what scattering means; `scatter` promises exactly that,
/// and leaves the sampler's mode unchanged.
pub trait Scatterable {
    /// What the outputs of `scatter` mean for this surface.
    spec fn scatter_post(&self, r_in: Ray, rec: HitRecord, att: Vec3, sc: Ray, res: bool) -> bool;

    /// Scatter `r_in` at `rec`: write the attenuation and the scattered ray,
    /// and return whether the ray survives (`false` means absorbed).
    fn scatter(
        &self,
        r_in: &Ray,
        rec: &HitRecord,
        attenuation: &mut Vec3,
        scattered: &mut Ray,
        smp: &mut Sampler,
    ) -> (res: bool)
        ensures
            self.scatter_post(*r_in, *rec, *final(attenuation), *final(scattered), res),
            final(smp).seeded == old(smp).seeded,
    ;
}

#[derive(Clone, Copy, Debug, PartialEq, Eq, Structural)]
pub enum Material {
    Lambertian { albedo: Vec3 },
    Metal { albedo: Vec3, fuzz: i64 },
    Dielectric { ri: i64 },
}

/// The color white, the attenuation of a clear dielectric.
pub open spec fn white() -> V3 {
    V3 { x: FX_ONE as int, y: FX_ONE as int, z: FX_ONE as int }
}

/// Every component lies in `[0, 1]`: the vector is a color.
pub open spec fn color_ok(c: V3) -> bool {
    0 <= c.x <= FX_ONE as int && 0 <= c.y <= FX_ONE as int && 0 <= c.z <= FX_ONE as int
}

impl Material {
    /// The data-model invariants: albedos are colors, roughness lies in
    /// `[0, 1]`, and a refractive index exceeds one.
    pub open spec fn wf(self) -> bool {
        match self {
            Material::Lambertian { albedo } => color_ok(albedo.m()),
            Material::Metal { albedo, fuzz } => color_ok(albedo.m()) && 0 <= fuzz <= FX_ONE,
            Material::Dielectric { ri } => ri > FX_ONE,
        }
    }
}

/// Mirror reflection of `v` about the normal `n`.
pub open spec fn sv_reflect(v: V3, n: V3) -> V3 {
    sv_sub(v, sv_scale(n, fx_mul(FX_TWO as int, sv_dot(v, n))))
}

/// Snell refraction of `v` through a surface with outward normal `n` and
/// index ratio `ratio`; `None` when total internal reflection occurs.
pub open spec fn sv_refract(v: V3, n: V3, ratio: int) -> Option<V3> {
    let uv = sv_unit(v);
    let dt = sv_dot(uv, n);
    let delta = fx_sub(
        FX_ONE as int,
        fx_mul(fx_mul(ratio, ratio), fx_sub(FX_ONE as int, fx_mul(dt, dt))),
    );
    if delta > 0 {
        Option::Some(
            sv_sub(sv_scale(sv_sub(uv, sv_scale(n, dt)), ratio), sv_scale(n, fx_sqrt(delta))),
        )
    } else {
        Option::None
    }
}

/// Fifth power, by repeated scalar multiplication.
pub open spec fn fx_pow5(x: int) -> int {
    fx_mul(fx_mul(fx_mul(fx_mul(x, x), x), x), x)
}

/// Schlick's approximation of the Fresnel reflectance.
pub open spec fn spec_schlick(cosine: int, ri: int) -> int {
    let q = fx_div(fx_sub(FX_ONE as int, ri), fx_add(FX_ONE as int, ri));
    let r0 = fx_mul(q, q);
    fx_add(r0, fx_mul(fx_sub(FX_ONE as int, r0), fx_pow5(fx_sub(FX_ONE as int, cosine))))
}

/// The direction a diffuse surface scatters toward: the hit point offset by
/// the surface normal and a random point in the unit sphere, minus the hit
/// point again.
pub open spec fn lambertian_dir(rec: HitM, p: V3) -> V3 {
    sv_sub(sv_add(sv_add(rec.p, rec.normal), p), rec.p)
}

/// The direction a metallic surface scatters toward: the mirror reflection,
/// perturbed by `fuzz` times a random point in the unit sphere.
pub open spec fn metal_dir(r_in: RayM, rec: HitM, fuzz: int, p: V3) -> V3 {
    sv_add(sv_reflect(sv_unit(r_in.dir), rec.normal), sv_scale(p, fuzz))
}

/// What `Material::scatter` guarantees, for each variant.
pub open spec fn scatter_ok(
    mat: Material,
    r_in: RayM,
    rec: HitM,
    att: V3,
    sc: RayM,
    res: bool,
) -> bool {
    match mat {
        Material::Lambertian { albedo } => res == true && att == albedo.m() && sc.orig == rec.p
            && exists|p: V3| in_unit_sphere_m(p) && sc.dir == lambertian_dir(rec, p),
        Material::Metal { albedo, fuzz } => att == albedo.m() && sc.orig == rec.p && (exists|p: V3|
            in_unit_sphere_m(p) && sc.dir == metal_dir(r_in, rec, fuzz as int, p)) && (res <==> sv_dot(
            sc.dir,
            rec.normal,
        ) > 0),
        Material::Dielectric { ri } => {
            let reflected = sv_reflect(sv_unit(r_in.dir), rec.normal);
            let exiting = sv_dot(r_in.dir, rec.normal) > 0;
            let outward = if exiting {
                sv_neg(rec.normal)
            } else {
                rec.normal
            };
            let ratio = if exiting {
                ri as int
            } else {
                fx_div(FX_ONE as int, ri as int)
            };
            res == true && att == white() && sc.orig == rec.p && (match sv_refract(
                r_in.dir,
                outward,
                ratio,
            ) {
                Option::Some(refr) => sc.dir == reflected || sc.dir == refr,
                Option::None => sc.dir == reflected,
            })
        },
    }
}

impl Scatterable for Material {
    open spec fn scatter_post(&self, r_in: Ray, rec: HitRecord, att: Vec3, sc: Ray, res: bool) -> bool {
        scatter_ok(*self, r_in.m(), rec.m(), att.m(), sc.m(), res)
    }

    /// Scatter an incoming ray at a hit.  Returns whether the ray survives;
    /// on absorption the outputs still hold the values the contract states.
    fn scatter(
        &self,
        r_in: &Ray,
        rec: &HitRecord,
        attenuation: &mut Vec3,
        scattered: &mut Ray,
        smp: &mut Sampler,
    ) -> (res: bool) {
        match self {
            Material::Lambertian { albedo } => {
                let rnd = random_in_unit_sphere(smp);
                let target = rec.p.plus(&rec.normal).plus(&rnd);
                *scattered = Ray::new(rec.p, target.minus(&rec.p));
                *attenuation = *albedo;
                proof {
                    assert(in_unit_sphere_m(rnd.m()) && scattered.m().dir == lambertian_dir(
                        rec.m(),
                        rnd.m(),
                    ));
                }
                true
            },
            Material::Metal { albedo, fuzz } => {
                let reflected = reflect(Vec3::make_unit_vec(r_in.direction()), rec.normal);
                let rnd = random_in_unit_sphere(smp);
                *scattered = Ray::new(rec.p, reflected.plus(&rnd.scale(*fuzz)));
                *attenuation = *albedo;
                proof {
                    assert(in_unit_sphere_m(rnd.m()) && scattered.m().dir == metal_dir(
                        r_in.m(),
                        rec.m(),
                        *fuzz as int,
                        rnd.m(),
                    ));
                }
                Vec3::dot(scattered.direction(), rec.normal) > 0
            },
            Material::Dielectric { ri } => {
                let reflected = reflect(Vec3::make_unit_vec(r_in.direction()), rec.normal);
                *attenuation = Vec3::new(FX_ONE, FX_ONE, FX_ONE);
                let d: i64 = Vec3::dot(r_in.direction(), rec.normal);
                let outward_normal: Vec3;
                let ni_over_nt: i64;
                let cosine: i64;
                if d > 0 {
                    outward_normal = rec.normal.negate();
                    ni_over_nt = *ri;
                    cosine = fdiv(fmul(*ri, d), r_in.direction().length());
                } else {
                    outward_normal = rec.normal;
                    ni_over_nt = fdiv(FX_ONE, *ri);
                    cosine = fdiv(fneg(d), r_in.direction().length());
                }
                let reflect_prob: i64;
                let mut refracted = Vec3::new(FX_ONE, FX_ONE, FX_ONE);
                let mut has_refracted: bool = false;
                match refract(r_in.direction(), outward_normal, ni_over_nt) {
                    Option::Some(refr) => {
                        reflect_prob = schlick(cosine, *ri);
                        refracted = refr;
                        has_refracted = true;
                    },
                    Option::None => {
                        reflect_prob = FX_ONE;
                    },
                }
                if !has_refracted || smp.next_unit() < reflect_prob {
                    *scattered = Ray::new(rec.p, reflected);
                } else {
                    *scattered = Ray::new(rec.p, refracted);
                }
                true
            },
        }
    }
}

/// Mirror reflection about `n`.
fn reflect(v: Vec3, n: Vec3) -> (r: Vec3)
    ensures
        r.m() == sv_reflect(v.m(), n.m()),
{
    v.minus(&n.scale(fmul(FX_TWO, Vec3::dot(v, n))))
}

/// Snell refraction; `None` on total internal reflection.
fn refract(v: Vec3, n: Vec3, ni_over_nt: i64) -> (r: Option<Vec3>)
    ensures
        r is Some <==> sv_refract(v.m(), n.m(), ni_over_nt as int) is Some,
        r is Some ==> r->Some_0.m() == sv_refract(v.m(), n.m(), ni_over_nt as int)->Some_0,
{
    let uv = Vec3::make_unit_vec(v);
    let dt: i64 = Vec3::dot(uv, n);
    let delta: i64 = fsub(FX_ONE, fmul(fmul(ni_over_nt, ni_over_nt), fsub(FX_ONE, fmul(dt, dt))));
    if delta > 0 {
        Option::Some(uv.minus(&n.scale(dt)).scale(ni_over_nt).minus(&n.scale(fsqrt(delta))))
    } else {
        Option::None
    }
}

/// Schlick's reflectance approximation.
fn schlick(cosine: i64, ri: i64) -> (r: i64)
    ensures
        r as int == spec_schlick(cosine as int, ri as int),
{
    let q: i64 = fdiv(fsub(FX_ONE, ri), fadd(FX_ONE, ri));
    let r0: i64 = fmul(q, q);
    let f: i64 = fsub(FX_ONE, cosine);
    let p5: i64 = fmul(fmul(fmul(fmul(f, f), f), f), f);
    fadd(r0, fmul(fsub(FX_ONE, r0), p5))
}

/// A diffuse surface always scatters.
pub proof fn lemma_lambertian_always_scatters(
    mat: Material,
    r_in: RayM,
    rec: HitM,
    att: V3,
    sc: RayM,
    res: bool,
)
    requires
        mat is Lambertian,
        scatter_ok(mat, r_in, rec, att, sc, res),
    ensures
        res == true,
{
}

/// A metallic surface with zero roughness scatters exactly along the mirror
/// reflection, and the ray is absorbed if and only if that reflection points
/// at or below the surface.
pub proof fn lemma_metal_mirror(
    albedo: Vec3,
    r_in: RayM,
    rec: HitM,
    att: V3,
    sc: RayM,
    res: bool,
)
    requires
        scatter_ok(Material::Metal { albedo, fuzz: 0 }, r_in, rec, att, sc, res),
    ensures
        sc.dir == sv_reflect(sv_unit(r_in.dir), rec.normal),
        res <==> sv_dot(sv_reflect(sv_unit(r_in.dir), rec.normal), rec.normal) > 0,
        !res <==> sv_dot(sv_reflect(sv_unit(r_in.dir), rec.normal), rec.normal) <= 0,
{
    let refl = sv_reflect(sv_unit(r_in.dir), rec.normal);
    let pw = choose|p: V3| in_unit_sphere_m(p) && sc.dir == metal_dir(r_in, rec, 0, p);
    assert(sc.dir == metal_dir(r_in, rec, 0, pw));
    assert(sv_scale(pw, 0) == (V3 { x: 0, y: 0, z: 0 }));
    assert(sv_add(refl, V3 { x: 0, y: 0, z: 0 }) == refl);
    assert(sc.dir == refl);
}

/// A dielectric surface always scatters, and under total internal reflection
/// (no real refracted direction) it always reflects.
pub proof fn lemma_dielectric_total_internal_reflection(
    ri: i64,
    r_in: RayM,
    rec: HitM,
    att: V3,
    sc: RayM,
    res: bool,
)
    requires
        scatter_ok(Material::Dielectric { ri }, r_in, rec, att, sc, res),
        sv_dot(r_in.dir, rec.normal) > 0,
        sv_refract(r_in.dir, sv_neg(rec.normal), ri as int) is None,
    ensures
        res == true,
        att == white(),
        sc.dir == sv_reflect(sv_unit(r_in.dir), rec.normal),
{
}

} // verus!
