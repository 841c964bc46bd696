//! The integrator: the radiance function, the per-pixel multi-sample driver,
//! the reference scene builder, and the parallel execution strategy.

use vstd::prelude::*;
use crate::camera::{spec_get_ray, Camera};
use crate::fixed::{
    clamp01, fadd, fdiv, fint, fmul, fsqrt, fsub, fx_add, fx_div, fx_mul, fx_sqrt, fx_sub,
    lemma_fx_mul_color, lemma_fx_mul_le, tdiv, FX_HALF, FX_LIMIT, FX_ONE, FX_TWO,
};
use crate::material::{color_ok, scatter_ok, white, Material, Scatterable};
use crate::object::list::{lemma_scene_hit_wf, scene_hit_m, HitableList};
use crate::object::{HitM, Hitable};
use crate::object::sphere::Sphere;
use crate::ray::{Ray, RayM};
use crate::rng::{in_unit_disk_m, Sampler};
use crate::vec3::{sv_add, sv_len, sv_mul, sv_scale, sv_sub, sv_unit, V3, Vec3};
use rayon::iter::{IntoParallelIterator, ParallelIterator};

verus! {

/// Lower parameter bound of every radiance query (about 0.0001): a scattered
/// ray must not immediately re-hit the surface it left.
pub const T_MIN: i64 = 7;
/// The recursion depth cap of the radiance function.
pub const MAX_DEPTH: u16 = 50;
/// The scalar 255.99: scales a gamma-corrected channel to the 8-bit range so
/// that truncation covers 0 through 255 without rounding bias at the top.
pub const FX_255_99: i64 = 16777543;
/// The scalar 0.9.
pub const FX_09: i64 = 58982;
/// The scalar 0.2.
pub const FX_02: i64 = 13107;
/// The scalar 0.8, the share of diffuse spheres in the reference scene.
pub const FX_08: i64 = 52429;
/// The scalar 0.95, the share of diffuse plus metallic spheres.
pub const FX_095: i64 = 62259;
/// The scalar 1.5, the refractive index of the glass-like spheres.
pub const FX_15: i64 = 98304;

/// The color black.
pub open spec fn v3_zero() -> V3 {
    V3 { x: 0, y: 0, z: 0 }
}

/// The sky-blue end of the background gradient.
pub open spec fn sky_blue() -> V3 {
    V3 { x: FX_HALF as int, y: 45875, z: FX_ONE as int }
}

/// The background: a vertical gradient from white to sky blue, governed by
/// the y component of the unit direction.  The gradient parameter is clamped
/// into `[0, 1]`; with exact arithmetic that clamp is the identity, since a
/// unit direction's y component lies in `[-1, 1]`, but fixed-point
/// normalization of a near-degenerate direction can overshoot it.
pub open spec fn background_m(rd: V3) -> V3 {
    let u = sv_unit(rd);
    let t = clamp01(fx_mul(FX_HALF as int, fx_add(u.y, FX_ONE as int)));
    sv_add(sv_scale(white(), fx_sub(FX_ONE as int, t)), sv_scale(sky_blue(), t))
}

/// `c` is a radiance the scene can return for `r` at recursion depth
/// `depth`: the exact background on a miss, exactly black at the depth cap,
/// and otherwise a scatter outcome (some sample inside the unit sphere, via
/// `scatter_ok`) whose attenuation multiplies a radiance of the scattered
/// ray one level deeper.  Black below the cap is admitted only through
/// absorption, which `scatter_ok` grants no diffuse or dielectric surface.
pub open spec fn radiance_rel(spheres: Seq<Sphere>, r: RayM, depth: int, c: V3) -> bool
    decreases MAX_DEPTH as int - depth,
{
    match scene_hit_m(spheres, r.orig, r.dir, T_MIN as int, FX_LIMIT as int) {
        Option::None => c == background_m(r.dir),
        Option::Some(h) => {
            if depth >= MAX_DEPTH as int {
                c == v3_zero()
            } else {
                exists|att: V3, sc: RayM, res: bool, rest: V3|
                    #![trigger scatter_ok(h.mat, r, h, att, sc, res), sv_mul(att, rest)]
                    scatter_ok(h.mat, r, h, att, sc, res) && (if res {
                        radiance_rel(spheres, sc, depth + 1, rest) && c == sv_mul(att, rest)
                    } else {
                        c == v3_zero()
                    })
            }
        },
    }
}

/// The radiance carried back along a ray: the scene's answer is related to
/// the query by `radiance_rel`, and against a well-formed scene every
/// component stays in the color range `[0, 1]`.
#[verifier::rlimit(60)]
pub fn color(r: &Ray, world: &HitableList, depth: u16, smp: &mut Sampler) -> (c: Vec3)
    ensures
        radiance_rel(world.spheres(), r.m(), depth as int, c.m()),
        world.wf() ==> color_ok(c.m()),
        final(smp).seeded == old(smp).seeded,
    decreases MAX_DEPTH as int - depth as int,
{
    let res: Vec3;
    match world.hit(r, T_MIN, FX_LIMIT) {
        Option::Some(rec) => {
            if depth < MAX_DEPTH {
                let mut scattered = Ray::new(Vec3::new(0, 0, 0), Vec3::new(0, 0, 0));
                let mut attenuation = Vec3::new(0, 0, 0);
                if rec.mat.scatter(r, &rec, &mut attenuation, &mut scattered, smp) {
                    let rest = color(&scattered, world, depth + 1, smp);
                    let c = attenuation.mul_vec(&rest);
                    proof {
                        lemma_radiance_scatter(
                            world.spheres(),
                            r.m(),
                            depth as int,
                            c.m(),
                            rec.m(),
                            attenuation.m(),
                            scattered.m(),
                            rest.m(),
                        );
                        if world.wf() {
                            lemma_scene_hit_wf(
                                world.spheres(),
                                r.m().orig,
                                r.m().dir,
                                T_MIN as int,
                                FX_LIMIT as int,
                            );
                            assert(color_ok(attenuation.m()));
                            lemma_color_mul(attenuation.m(), rest.m());
                        }
                    }
                    res = c;
                } else {
                    res = Vec3::new(0, 0, 0);
                    proof {
                        lemma_radiance_absorbed(
                            world.spheres(),
                            r.m(),
                            depth as int,
                            res.m(),
                            rec.m(),
                            attenuation.m(),
                            scattered.m(),
                        );
                    }
                }
            } else {
                res = Vec3::new(0, 0, 0);
                proof {
                    lemma_radiance_cap(world.spheres(), r.m(), depth as int, res.m());
                }
            }
        },
        Option::None => {
            let unit_direction = Vec3::make_unit_vec(r.direction());
            let t0: i64 = fmul(FX_HALF, fadd(unit_direction.y(), FX_ONE));
            let t: i64 = if t0 < 0 {
                0
            } else if t0 > FX_ONE {
                FX_ONE
            } else {
                t0
            };
            res = Vec3::new(FX_ONE, FX_ONE, FX_ONE).scale(fsub(FX_ONE, t)).plus(
                &Vec3::new(FX_HALF, 45875, FX_ONE).scale(t),
            );
            proof {
                lemma_radiance_miss(world.spheres(), r.m(), depth as int, res.m());
                lemma_background_range(r.m().dir);
            }
        },
    }
    res
}

/// A miss is a radiance exactly when it is the background.
proof fn lemma_radiance_miss(spheres: Seq<Sphere>, r: RayM, depth: int, c: V3)
    requires
        scene_hit_m(spheres, r.orig, r.dir, T_MIN as int, FX_LIMIT as int) is None,
        c == background_m(r.dir),
    ensures
        radiance_rel(spheres, r, depth, c),
{
}

/// A hit at the depth cap yields black.
proof fn lemma_radiance_cap(spheres: Seq<Sphere>, r: RayM, depth: int, c: V3)
    requires
        scene_hit_m(spheres, r.orig, r.dir, T_MIN as int, FX_LIMIT as int) is Some,
        depth >= MAX_DEPTH as int,
        c == v3_zero(),
    ensures
        radiance_rel(spheres, r, depth, c),
{
}

/// A surviving scatter whose deeper radiance is attenuated is a radiance.
proof fn lemma_radiance_scatter(
    spheres: Seq<Sphere>,
    r: RayM,
    depth: int,
    c: V3,
    h: HitM,
    att: V3,
    sc: RayM,
    rest: V3,
)
    requires
        scene_hit_m(spheres, r.orig, r.dir, T_MIN as int, FX_LIMIT as int) == Option::Some(h),
        depth < MAX_DEPTH as int,
        scatter_ok(h.mat, r, h, att, sc, true),
        radiance_rel(spheres, sc, depth + 1, rest),
        c == sv_mul(att, rest),
    ensures
        radiance_rel(spheres, r, depth, c),
{
}

/// An absorbed scatter yields black.
proof fn lemma_radiance_absorbed(
    spheres: Seq<Sphere>,
    r: RayM,
    depth: int,
    c: V3,
    h: HitM,
    att: V3,
    sc: RayM,
)
    requires
        scene_hit_m(spheres, r.orig, r.dir, T_MIN as int, FX_LIMIT as int) == Option::Some(h),
        depth < MAX_DEPTH as int,
        scatter_ok(h.mat, r, h, att, sc, false),
        c == v3_zero(),
    ensures
        radiance_rel(spheres, r, depth, c),
{
    let _trig = sv_mul(att, v3_zero());
}

/// The componentwise product of two colors is a color.
proof fn lemma_color_mul(a: V3, b: V3)
    requires
        color_ok(a),
        color_ok(b),
    ensures
        color_ok(sv_mul(a, b)),
{
    lemma_fx_mul_le(a.x, b.x);
    lemma_fx_mul_le(a.y, b.y);
    lemma_fx_mul_le(a.z, b.z);
}

/// The background gradient is a color: the clamped parameter blends two
/// colors, and each blended term is bounded by its weight.
proof fn lemma_background_range(rd: V3)
    ensures
        color_ok(background_m(rd)),
{
    let u = sv_unit(rd);
    let t = clamp01(fx_mul(FX_HALF as int, fx_add(u.y, FX_ONE as int)));
    let t1 = fx_sub(FX_ONE as int, t);
    assert(0 <= t <= FX_ONE as int && 0 <= t1 <= FX_ONE as int);
    lemma_fx_mul_le(FX_ONE as int, t1);
    lemma_fx_mul_le(FX_HALF as int, t);
    lemma_fx_mul_le(45875, t);
    lemma_fx_mul_le(FX_ONE as int, t);
}


#[derive(Clone, Copy, Debug, PartialEq, Eq, Structural)]
pub struct Pixel {
    pub r: u8,
    pub g: u8,
    pub b: u8,
}

/// An 8-bit channel: the integer part of `c * 255.99`, clamped to `[0, 255]`
/// exactly as a float-to-byte conversion saturates.
pub open spec fn byte_of(c: int) -> int {
    let s = fx_mul(c, FX_255_99 as int);
    let i = tdiv(s, FX_ONE as int);
    if i < 0 {
        0
    } else if i > 255 {
        255
    } else {
        i
    }
}

/// One channel of a finished pixel: the accumulated radiance averaged over
/// `ns` samples, gamma-corrected by square root, and quantized.
pub open spec fn channel_of(c: int, ns: int) -> int {
    byte_of(fx_sqrt(fx_div(c, ns * (FX_ONE as int))))
}

/// `p` is the pixel that the accumulated radiance `acc` quantizes to.
pub open spec fn pixel_matches(p: Pixel, acc: V3, ns: int) -> bool {
    p.r as int == channel_of(acc.x, ns) && p.g as int == channel_of(acc.y, ns) && p.b as int
        == channel_of(acc.z, ns)
}

fn to_byte(c: i64) -> (r: u8)
    ensures
        r as int == byte_of(c as int),
{
    let s: i64 = fmul(c, FX_255_99);
    let i: i64 = fint(s);
    if i < 0 {
        0
    } else if i > 255 {
        255
    } else {
        i as u8
    }
}

/// Average, gamma-correct and quantize an accumulated radiance.
pub fn finish_pixel(col: &Vec3, ns: usize) -> (p: Pixel)
    requires
        1 <= ns <= 1000000,
    ensures
        pixel_matches(p, col.m(), ns as int),
{
    let ns_fx: i64 = (ns as i64) * FX_ONE;
    let avg = col.div_scalar(ns_fx);
    Pixel { r: to_byte(fsqrt(avg.x())), g: to_byte(fsqrt(avg.y())), b: to_byte(fsqrt(avg.z())) }
}

/// `ray` is the camera ray for pixel `(x, y)` once the jitters `ju`, `jv`
/// (drawn in `[0, 1)`) and the lens sample `d` are fixed: the pixel index
/// plus its jitter, normalized by the image dimension, is the image
/// coordinate handed to the camera.
pub open spec fn sample_ray_at(
    cam: Camera,
    x: int,
    y: int,
    nx: int,
    ny: int,
    ju: int,
    jv: int,
    d: V3,
    ray: RayM,
) -> bool {
    0 <= ju < FX_ONE as int && 0 <= jv < FX_ONE as int && in_unit_disk_m(d) && ray
        == spec_get_ray(
        cam,
        fx_div(fx_add(x * (FX_ONE as int), ju), nx * (FX_ONE as int)),
        fx_div(fx_add(y * (FX_ONE as int), jv), ny * (FX_ONE as int)),
        d,
    )
}

/// `ray` is a camera ray for pixel `(x, y)`: the image coordinate is
/// jittered somewhere within the pixel footprint, and a lens sample inside
/// the unit disk supplies the depth-of-field offset.
pub open spec fn sample_ray_rel(cam: Camera, x: int, y: int, nx: int, ny: int, ray: RayM) -> bool {
    exists|ju: int, jv: int, d: V3| #[trigger] sample_ray_at(cam, x, y, nx, ny, ju, jv, d, ray)
}

/// `acc` is an accumulated radiance of `n` samples for pixel `(x, y)`: zero
/// for no samples, else a previous accumulation plus the radiance of one
/// jittered camera ray, traced from depth zero.
pub open spec fn acc_rel(
    spheres: Seq<Sphere>,
    cam: Camera,
    x: int,
    y: int,
    nx: int,
    ny: int,
    n: int,
    acc: V3,
) -> bool
    decreases n,
{
    if n <= 0 {
        acc == v3_zero()
    } else {
        exists|prev: V3, ray: RayM, c: V3|
            #![trigger sample_ray_rel(cam, x, y, nx, ny, ray), sv_add(prev, c)]
            acc_rel(spheres, cam, x, y, nx, ny, n - 1, prev) && sample_ray_rel(
                cam,
                x,
                y,
                nx,
                ny,
                ray,
            ) && radiance_rel(spheres, ray, 0, c) && acc == sv_add(prev, c)
    }
}

/// One accumulation step: a previous accumulation of `n - 1` samples plus
/// the radiance of one jittered camera ray accumulates `n` samples.
proof fn lemma_acc_step(
    spheres: Seq<Sphere>,
    cam: Camera,
    x: int,
    y: int,
    nx: int,
    ny: int,
    n: int,
    prev: V3,
    ray: RayM,
    c: V3,
    acc: V3,
)
    requires
        n >= 1,
        acc_rel(spheres, cam, x, y, nx, ny, n - 1, prev),
        sample_ray_rel(cam, x, y, nx, ny, ray),
        radiance_rel(spheres, ray, 0, c),
        acc == sv_add(prev, c),
    ensures
        acc_rel(spheres, cam, x, y, nx, ny, n, acc),
{
}

/// `p` is a pixel the renderer can produce at `(x, y)`: the quantization of
/// an accumulation of `ns` per-sample radiances.
pub open spec fn pixel_ok(
    spheres: Seq<Sphere>,
    cam: Camera,
    x: int,
    y: int,
    nx: int,
    ny: int,
    ns: int,
    p: Pixel,
) -> bool {
    exists|acc: V3|
        #[trigger] acc_rel(spheres, cam, x, y, nx, ny, ns, acc) && pixel_matches(p, acc, ns)
}

/// The multi-sample driver for one pixel: jitter the image coordinate within
/// the pixel footprint, trace, accumulate, then finish.
pub fn render_pixel(
    world: &HitableList,
    cam: &Camera,
    x: usize,
    y: usize,
    nx: usize,
    ny: usize,
    ns: usize,
    smp: &mut Sampler,
) -> (p: Pixel)
    requires
        1 <= nx <= 1000000,
        1 <= ny <= 1000000,
        1 <= ns <= 1000000,
        x < nx,
        y < ny,
    ensures
        pixel_ok(world.spheres(), *cam, x as int, y as int, nx as int, ny as int, ns as int, p),
        final(smp).seeded == old(smp).seeded,
{
    let mut col = Vec3::new(0, 0, 0);
    let mut s: usize = 0;
    while s < ns
        invariant
            acc_rel(
                world.spheres(),
                *cam,
                x as int,
                y as int,
                nx as int,
                ny as int,
                s as int,
                col.m(),
            ),
            s <= ns,
            smp.seeded == old(smp).seeded,
            nx <= 1000000,
            ny <= 1000000,
            x < nx,
            y < ny,
        decreases ns - s,
    {
        let ju: i64 = smp.next_unit();
        let u: i64 = fdiv(fadd((x as i64) * FX_ONE, ju), (nx as i64) * FX_ONE);
        let jv: i64 = smp.next_unit();
        let v: i64 = fdiv(fadd((y as i64) * FX_ONE, jv), (ny as i64) * FX_ONE);
        let ray = cam.get_ray(u, v, smp);
        let c = color(&ray, world, 0, smp);
        let acc = col.plus(&c);
        proof {
            let d = choose|d: V3|
                in_unit_disk_m(d) && ray.m() == spec_get_ray(*cam, u as int, v as int, d);
            assert(sample_ray_at(
                *cam,
                x as int,
                y as int,
                nx as int,
                ny as int,
                ju as int,
                jv as int,
                d,
                ray.m(),
            ));
            assert(sample_ray_rel(*cam, x as int, y as int, nx as int, ny as int, ray.m()));
            lemma_acc_step(
                world.spheres(),
                *cam,
                x as int,
                y as int,
                nx as int,
                ny as int,
                s as int + 1,
                col.m(),
                ray.m(),
                c.m(),
                acc.m(),
            );
        }
        col = acc;
        s = s + 1;
    }
    finish_pixel(&col, ns)
}

/// Render one row of the image.  Row `y_rev` counts from the top of the
/// image; each row gets its own sampler so parallel tasks never share
/// generator state, and a seeded render re-seeds deterministically per row.
pub fn render_row(
    world: &HitableList,
    cam: &Camera,
    y_rev: usize,
    nx: usize,
    ny: usize,
    ns: usize,
    seed: &Option<u64>,
) -> (row: Vec<Pixel>)
    requires
        1 <= nx <= 1000000,
        1 <= ny <= 1000000,
        1 <= ns <= 1000000,
        y_rev < ny,
    ensures
        row@.len() == nx as int,
        forall|j: int|
            0 <= j < nx as int ==> pixel_ok(
                world.spheres(),
                *cam,
                j,
                ny as int - 1 - y_rev as int,
                nx as int,
                ny as int,
                ns as int,
                #[trigger] row@[j],
            ),
{
    let mut smp = Sampler::for_task(seed, y_rev as u64);
    let y: usize = ny - 1 - y_rev;
    let mut row: Vec<Pixel> = Vec::new();
    let mut x: usize = 0;
    while x < nx
        invariant
            row@.len() == x as int,
            x <= nx,
            1 <= nx <= 1000000,
            1 <= ny <= 1000000,
            1 <= ns <= 1000000,
            y < ny,
            y as int == ny as int - 1 - y_rev as int,
            forall|j: int|
                0 <= j < x as int ==> pixel_ok(
                    world.spheres(),
                    *cam,
                    j,
                    y as int,
                    nx as int,
                    ny as int,
                    ns as int,
                    #[trigger] row@[j],
                ),
        decreases nx - x,
    {
        let p = render_pixel(world, cam, x, y, nx, ny, ns, &mut smp);
        row.push(p);
        x = x + 1;
    }
    row
}

/// Render the whole image sequentially: `ny` rows of `nx` pixels, row 0 at
/// the top.  With a seed this is deterministic and equals what the parallel
/// renderer produces.
pub fn render(
    world: &HitableList,
    cam: &Camera,
    nx: usize,
    ny: usize,
    ns: usize,
    seed: &Option<u64>,
) -> (img: Vec<Vec<Pixel>>)
    requires
        1 <= nx <= 1000000,
        1 <= ny <= 1000000,
        1 <= ns <= 1000000,
    ensures
        img@.len() == ny as int,
        forall|i: int| 0 <= i < ny as int ==> (#[trigger] img@[i])@.len() == nx as int,
        forall|i: int, j: int|
            0 <= i < ny as int && 0 <= j < nx as int ==> pixel_ok(
                world.spheres(),
                *cam,
                j,
                ny as int - 1 - i,
                nx as int,
                ny as int,
                ns as int,
                #[trigger] img@[i]@[j],
            ),
{
    let mut img: Vec<Vec<Pixel>> = Vec::new();
    let mut y_rev: usize = 0;
    while y_rev < ny
        invariant
            img@.len() == y_rev as int,
            y_rev <= ny,
            1 <= nx <= 1000000,
            1 <= ny <= 1000000,
            1 <= ns <= 1000000,
            forall|i: int| 0 <= i < y_rev as int ==> (#[trigger] img@[i])@.len() == nx as int,
            forall|i: int, j: int|
                0 <= i < y_rev as int && 0 <= j < nx as int ==> pixel_ok(
                    world.spheres(),
                    *cam,
                    j,
                    ny as int - 1 - i,
                    nx as int,
                    ny as int,
                    ns as int,
                    #[trigger] img@[i]@[j],
                ),
        decreases ny - y_rev,
    {
        let row = render_row(world, cam, y_rev, nx, ny, ns, seed);
        img.push(row);
        y_rev = y_rev + 1;
    }
    img
}

/// One parallel task per row.
///
/// Relies on `rayon`: `into_par_iter` over `0..ny` with `map` and `collect`
/// yields one entry per index in index order, each entry being what the
/// verified `render_row` returns for that row; the guarantees below are
/// `render_row`'s own, carried through that order-preserving collection.
#[verifier::external_body]
fn par_rows(
    world: &HitableList,
    cam: &Camera,
    nx: usize,
    ny: usize,
    ns: usize,
    seed: &Option<u64>,
) -> (img: Vec<Vec<Pixel>>)
    requires
        1 <= nx <= 1000000,
        1 <= ny <= 1000000,
        1 <= ns <= 1000000,
    ensures
        img@.len() == ny as int,
        forall|i: int| 0 <= i < ny as int ==> (#[trigger] img@[i])@.len() == nx as int,
        forall|i: int, j: int|
            0 <= i < ny as int && 0 <= j < nx as int ==> pixel_ok(
                world.spheres(),
                *cam,
                j,
                ny as int - 1 - i,
                nx as int,
                ny as int,
                ns as int,
                #[trigger] img@[i]@[j],
            ),
{
    (0..ny).into_par_iter().map(|y_rev: usize| render_row(world, cam, y_rev, nx, ny, ns, seed))
        .collect()
}

/// Render the whole image with one parallel task per row.  Rows are fanned
/// out across the worker pool and collected back in row order; with a seed
/// the result equals the sequential render's.
pub fn render_par(
    world: &HitableList,
    cam: &Camera,
    nx: usize,
    ny: usize,
    ns: usize,
    seed: &Option<u64>,
) -> (img: Vec<Vec<Pixel>>)
    requires
        1 <= nx <= 1000000,
        1 <= ny <= 1000000,
        1 <= ns <= 1000000,
    ensures
        img@.len() == ny as int,
        forall|i: int| 0 <= i < ny as int ==> (#[trigger] img@[i])@.len() == nx as int,
        forall|i: int, j: int|
            0 <= i < ny as int && 0 <= j < nx as int ==> pixel_ok(
                world.spheres(),
                *cam,
                j,
                ny as int - 1 - i,
                nx as int,
                ny as int,
                ns as int,
                #[trigger] img@[i]@[j],
            ),
{
    par_rows(world, cam, nx, ny, ns, seed)
}

/// A product of two draws from `[0, 1)` is a color channel.
proof fn lemma_unit_product(a: int, b: int)
    requires
        0 <= a < FX_ONE as int,
        0 <= b < FX_ONE as int,
    ensures
        0 <= fx_mul(a, b) <= FX_ONE as int,
{
    assert(a * b <= 4294967296) by (nonlinear_arith)
        requires
            0 <= a < 65536,
            0 <= b < 65536,
    {
    }
    lemma_fx_mul_color(a, b);
}

/// Half of a scalar in `[0, 2]` is a color channel.
proof fn lemma_half_product(q: int)
    requires
        0 <= q <= FX_TWO as int,
    ensures
        0 <= fx_mul(FX_HALF as int, q) <= FX_ONE as int,
{
    assert((FX_HALF as int) * q <= 4294967296) by (nonlinear_arith)
        requires
            0 <= q <= 131072,
    {
    }
    lemma_fx_mul_color(FX_HALF as int, q);
}

/// The large diffuse ground sphere of the reference scene: centered at
/// (0, -1000, -1) with radius 1000 and a mid-gray albedo.
pub open spec fn ground_sphere() -> Sphere {
    Sphere {
        center: Vec3 { x: 0, y: -65536000i64, z: -65536i64 },
        radius: 65536000,
        mat: Material::Lambertian { albedo: Vec3 { x: 32768, y: 32768, z: 32768 } },
    }
}

/// The glass feature sphere: a unit sphere at (0, 1, 0) with index 1.5.
pub open spec fn glass_sphere() -> Sphere {
    Sphere {
        center: Vec3 { x: 0, y: 65536, z: 0 },
        radius: 65536,
        mat: Material::Dielectric { ri: 98304 },
    }
}

/// The diffuse feature sphere: a unit sphere at (-4, 1, 0), albedo
/// (0.4, 0.2, 0.1).
pub open spec fn matte_sphere() -> Sphere {
    Sphere {
        center: Vec3 { x: -262144i64, y: 65536, z: 0 },
        radius: 65536,
        mat: Material::Lambertian { albedo: Vec3 { x: 26214, y: 13107, z: 6554 } },
    }
}

/// The metallic feature sphere: a unit sphere at (4, 1, 0), albedo
/// (0.7, 0.6, 0.5), zero roughness.
pub open spec fn steel_sphere() -> Sphere {
    Sphere {
        center: Vec3 { x: 262144, y: 65536, z: 0 },
        radius: 65536,
        mat: Material::Metal { albedo: Vec3 { x: 45875, y: 39322, z: 32768 }, fuzz: 0 },
    }
}

/// A randomly placed small sphere of the reference scene: radius 0.2,
/// resting at height 0.2, farther than 0.9 from the metallic feature
/// sphere's ground point, with a well-formed material.
pub open spec fn small_sphere_ok(s: Sphere) -> bool {
    s.radius == FX_02 && s.center.m().y == FX_02 as int && sv_len(
        sv_sub(s.center.m(), V3 { x: 262144, y: FX_02 as int, z: 0 }),
    ) > FX_09 as int && s.mat.wf()
}

/// Push a sphere that satisfies its invariant, keeping the scene well formed.
fn add_sphere(world: &mut HitableList, s: Sphere)
    requires
        old(world).wf(),
        s.wf(),
    ensures
        final(world).wf(),
        final(world).spheres() == old(world).spheres().push(s),
{
    world.add(s);
    proof {
        assert forall|i: int| 0 <= i < world.spheres().len() implies (#[trigger] world.spheres()[
            i
        ]).wf() by {
            if i < old(world).spheres().len() {
                assert(world.spheres()[i] == old(world).spheres()[i]);
            } else {
                assert(world.spheres()[i] == s);
            }
        }
    }
}

/// The scene holds the ground sphere first and small spheres after it.
pub open spec fn scene_prefix_ok(s: Seq<Sphere>) -> bool {
    s.len() >= 1 && s[0] == ground_sphere() && (forall|i: int|
        1 <= i < s.len() ==> small_sphere_ok(#[trigger] s[i]))
}

/// Push one small sphere, keeping the scene layout and its invariants.
fn add_small(world: &mut HitableList, s: Sphere)
    requires
        old(world).wf(),
        scene_prefix_ok(old(world).spheres()),
        small_sphere_ok(s),
    ensures
        final(world).wf(),
        scene_prefix_ok(final(world).spheres()),
{
    add_sphere(world, s);
    proof {
        assert(world.spheres()[0] == old(world).spheres()[0]);
        assert forall|i: int| 1 <= i < world.spheres().len() implies small_sphere_ok(
            #[trigger] world.spheres()[i],
        ) by {
            if i < old(world).spheres().len() {
                assert(world.spheres()[i] == old(world).spheres()[i]);
            } else {
                assert(world.spheres()[i] == s);
            }
        }
    }
}

/// The reference scene: a large diffuse ground sphere, a grid of small
/// randomly placed and randomly tinted spheres, and three large feature
/// spheres at the end.  Every sphere satisfies the data-model invariants,
/// and every small sphere rests at height 0.2 away from the metallic
/// feature sphere's ground point.
pub fn gen_scene(smp: &mut Sampler) -> (world: HitableList)
    ensures
        world.wf(),
        world.spheres().len() >= 4,
        world.spheres()[0] == ground_sphere(),
        world.spheres()[world.spheres().len() - 3] == glass_sphere(),
        world.spheres()[world.spheres().len() - 2] == matte_sphere(),
        world.spheres()[world.spheres().len() - 1] == steel_sphere(),
        forall|i: int|
            1 <= i < world.spheres().len() - 3 ==> small_sphere_ok(#[trigger] world.spheres()[i]),
        final(smp).seeded == old(smp).seeded,
{
    let mut world = HitableList::new();
    add_sphere(
        &mut world,
        Sphere::new(
            Vec3::new(0, -65536000, -FX_ONE),
            65536000,
            Material::Lambertian { albedo: Vec3::new(FX_HALF, FX_HALF, FX_HALF) },
        ),
    );
    proof {
        assert(world.spheres()[0] == ground_sphere());
    }
    let mut a: i64 = -11;
    while a <= 11
        invariant
            world.wf(),
            scene_prefix_ok(world.spheres()),
            -11 <= a <= 12,
            smp.seeded == old(smp).seeded,
        decreases 12 - a,
    {
        let mut b: i64 = -11;
        while b <= 11
            invariant
                world.wf(),
                scene_prefix_ok(world.spheres()),
                -11 <= a <= 11,
                -11 <= b <= 12,
                smp.seeded == old(smp).seeded,
            decreases 12 - b,
        {
            let choose_mat: i64 = smp.next_unit();
            let center = Vec3::new(
                fadd(a * FX_ONE, fmul(FX_09, smp.next_unit())),
                FX_02,
                fadd(b * FX_ONE, fmul(FX_09, smp.next_unit())),
            );
            if center.minus(&Vec3::new(4 * FX_ONE, FX_02, 0)).length() > FX_09 {
                if choose_mat < FX_08 {
                    let u0: i64 = smp.next_unit();
                    let u1: i64 = smp.next_unit();
                    let u2: i64 = smp.next_unit();
                    let u3: i64 = smp.next_unit();
                    let u4: i64 = smp.next_unit();
                    let u5: i64 = smp.next_unit();
                    let r0: i64 = fmul(u0, u1);
                    let r1: i64 = fmul(u2, u3);
                    let r2: i64 = fmul(u4, u5);
                    let sp = Sphere::new(
                        center,
                        FX_02,
                        Material::Lambertian { albedo: Vec3::new(r0, r1, r2) },
                    );
                    proof {
                        lemma_unit_product(u0 as int, u1 as int);
                        lemma_unit_product(u2 as int, u3 as int);
                        lemma_unit_product(u4 as int, u5 as int);
                        assert(small_sphere_ok(sp));
                    }
                    add_small(&mut world, sp);
                } else if choose_mat < FX_095 {
                    let u0: i64 = fadd(FX_ONE, smp.next_unit());
                    let u1: i64 = fadd(FX_ONE, smp.next_unit());
                    let u2: i64 = fadd(FX_ONE, smp.next_unit());
                    let u3: i64 = smp.next_unit();
                    let g0: i64 = fmul(FX_HALF, u0);
                    let g1: i64 = fmul(FX_HALF, u1);
                    let g2: i64 = fmul(FX_HALF, u2);
                    let fz: i64 = fmul(FX_HALF, u3);
                    let sp = Sphere::new(
                        center,
                        FX_02,
                        Material::Metal { albedo: Vec3::new(g0, g1, g2), fuzz: fz },
                    );
                    proof {
                        lemma_half_product(u0 as int);
                        lemma_half_product(u1 as int);
                        lemma_half_product(u2 as int);
                        lemma_half_product(u3 as int);
                        assert(small_sphere_ok(sp));
                    }
                    add_small(&mut world, sp);
                } else {
                    let sp = Sphere::new(center, FX_02, Material::Dielectric { ri: FX_15 });
                    proof {
                        assert(small_sphere_ok(sp));
                    }
                    add_small(&mut world, sp);
                }
            }
            b = b + 1;
        }
        a = a + 1;
    }
    let ghost base = world.spheres();
    add_sphere(
        &mut world,
        Sphere::new(Vec3::new(0, FX_ONE, 0), FX_ONE, Material::Dielectric { ri: FX_15 }),
    );
    add_sphere(
        &mut world,
        Sphere::new(
            Vec3::new(-4 * FX_ONE, FX_ONE, 0),
            FX_ONE,
            Material::Lambertian { albedo: Vec3::new(26214, FX_02, 6554) },
        ),
    );
    add_sphere(
        &mut world,
        Sphere::new(
            Vec3::new(4 * FX_ONE, FX_ONE, 0),
            FX_ONE,
            Material::Metal { albedo: Vec3::new(45875, 39322, FX_HALF), fuzz: 0 },
        ),
    );
    proof {
        let fin = world.spheres();
        assert(fin.len() == base.len() + 3);
        assert(fin[fin.len() - 3] == glass_sphere());
        assert(fin[fin.len() - 2] == matte_sphere());
        assert(fin[fin.len() - 1] == steel_sphere());
        assert(fin[0] == base[0]);
        assert forall|i: int| 1 <= i < fin.len() - 3 implies small_sphere_ok(#[trigger] fin[i]) by {
            assert(fin[i] == base[i]);
        }
    }
    world
}

} // verus!
