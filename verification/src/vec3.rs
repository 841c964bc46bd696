//! Three-component vectors, used interchangeably as points, directions and
//! RGB colors.  Components are fixed-point scalars (see `fixed`).

use vstd::prelude::*;
use crate::fixed::{
    abs_i, fadd, fdiv, fmul, fneg, fsqrt, fsub, fx_add, fx_div, fx_mul, fx_neg, fx_sqrt, fx_sub,
    lemma_sqrt_floor_bounds, lemma_tdiv16, lemma_tdiv_rem, sqrt_floor, tdiv, FX_LIMIT, FX_ONE,
};

verus! {

/// The mathematical model of a vector: three unbounded integers, each the raw
/// fixed-point representation of a component.
pub ghost struct V3 {
    pub x: int,
    pub y: int,
    pub z: int,
}

/// Componentwise addition.
pub open spec fn sv_add(a: V3, b: V3) -> V3 {
    V3 { x: fx_add(a.x, b.x), y: fx_add(a.y, b.y), z: fx_add(a.z, b.z) }
}

/// Componentwise subtraction.
pub open spec fn sv_sub(a: V3, b: V3) -> V3 {
    V3 { x: fx_sub(a.x, b.x), y: fx_sub(a.y, b.y), z: fx_sub(a.z, b.z) }
}

/// Componentwise negation.
pub open spec fn sv_neg(a: V3) -> V3 {
    V3 { x: fx_neg(a.x), y: fx_neg(a.y), z: fx_neg(a.z) }
}

/// Scaling by a scalar.
pub open spec fn sv_scale(a: V3, s: int) -> V3 {
    V3 { x: fx_mul(a.x, s), y: fx_mul(a.y, s), z: fx_mul(a.z, s) }
}

/// Componentwise product (color blending).
pub open spec fn sv_mul(a: V3, b: V3) -> V3 {
    V3 { x: fx_mul(a.x, b.x), y: fx_mul(a.y, b.y), z: fx_mul(a.z, b.z) }
}

/// Componentwise quotient.
pub open spec fn sv_div(a: V3, b: V3) -> V3 {
    V3 { x: fx_div(a.x, b.x), y: fx_div(a.y, b.y), z: fx_div(a.z, b.z) }
}

/// Division of each component by a scalar.
pub open spec fn sv_div_s(a: V3, s: int) -> V3 {
    V3 { x: fx_div(a.x, s), y: fx_div(a.y, s), z: fx_div(a.z, s) }
}

/// Dot product.
pub open spec fn sv_dot(a: V3, b: V3) -> int {
    fx_add(fx_add(fx_mul(a.x, b.x), fx_mul(a.y, b.y)), fx_mul(a.z, b.z))
}

/// Cross product.
pub open spec fn sv_cross(a: V3, b: V3) -> V3 {
    V3 {
        x: fx_sub(fx_mul(a.y, b.z), fx_mul(a.z, b.y)),
        y: fx_neg(fx_sub(fx_mul(a.x, b.z), fx_mul(a.z, b.x))),
        z: fx_sub(fx_mul(a.x, b.y), fx_mul(a.y, b.x)),
    }
}

/// Euclidean length.
pub open spec fn sv_len(a: V3) -> int {
    fx_sqrt(sv_dot(a, a))
}

/// The unit vector along `a`: each component divided by the length.  When the
/// length underflows to zero this yields the zero vector.
pub open spec fn sv_unit(a: V3) -> V3 {
    sv_div_s(a, sv_len(a))
}

#[derive(Clone, Copy, Debug, PartialEq, Eq, Structural)]
pub struct Vec3 {
    pub x: i64,
    pub y: i64,
    pub z: i64,
}

impl Vec3 {
    /// The model of this vector.
    pub open spec fn m(self) -> V3 {
        V3 { x: self.x as int, y: self.y as int, z: self.z as int }
    }

    pub fn new(e0: i64, e1: i64, e2: i64) -> (r: Vec3)
        ensures
            r.m() == (V3 { x: e0 as int, y: e1 as int, z: e2 as int }),
    {
        Vec3 { x: e0, y: e1, z: e2 }
    }

    pub fn x(&self) -> (r: i64)
        ensures
            r as int == self.m().x,
    {
        self.x
    }

    pub fn y(&self) -> (r: i64)
        ensures
            r as int == self.m().y,
    {
        self.y
    }

    pub fn z(&self) -> (r: i64)
        ensures
            r as int == self.m().z,
    {
        self.z
    }

    pub fn r(&self) -> (r: i64)
        ensures
            r as int == self.m().x,
    {
        self.x
    }

    pub fn g(&self) -> (r: i64)
        ensures
            r as int == self.m().y,
    {
        self.y
    }

    pub fn b(&self) -> (r: i64)
        ensures
            r as int == self.m().z,
    {
        self.z
    }

    pub fn plus(&self, o: &Vec3) -> (r: Vec3)
        ensures
            r.m() == sv_add(self.m(), o.m()),
    {
        Vec3 { x: fadd(self.x, o.x), y: fadd(self.y, o.y), z: fadd(self.z, o.z) }
    }

    pub fn minus(&self, o: &Vec3) -> (r: Vec3)
        ensures
            r.m() == sv_sub(self.m(), o.m()),
    {
        Vec3 { x: fsub(self.x, o.x), y: fsub(self.y, o.y), z: fsub(self.z, o.z) }
    }

    pub fn negate(&self) -> (r: Vec3)
        ensures
            r.m() == sv_neg(self.m()),
    {
        Vec3 { x: fneg(self.x), y: fneg(self.y), z: fneg(self.z) }
    }

    pub fn scale(&self, s: i64) -> (r: Vec3)
        ensures
            r.m() == sv_scale(self.m(), s as int),
    {
        Vec3 { x: fmul(self.x, s), y: fmul(self.y, s), z: fmul(self.z, s) }
    }

    pub fn mul_vec(&self, o: &Vec3) -> (r: Vec3)
        ensures
            r.m() == sv_mul(self.m(), o.m()),
    {
        Vec3 { x: fmul(self.x, o.x), y: fmul(self.y, o.y), z: fmul(self.z, o.z) }
    }

    pub fn div_vec(&self, o: &Vec3) -> (r: Vec3)
        ensures
            r.m() == sv_div(self.m(), o.m()),
    {
        Vec3 { x: fdiv(self.x, o.x), y: fdiv(self.y, o.y), z: fdiv(self.z, o.z) }
    }

    pub fn div_scalar(&self, s: i64) -> (r: Vec3)
        ensures
            r.m() == sv_div_s(self.m(), s as int),
    {
        Vec3 { x: fdiv(self.x, s), y: fdiv(self.y, s), z: fdiv(self.z, s) }
    }

    pub fn squared_length(&self) -> (r: i64)
        ensures
            r as int == sv_dot(self.m(), self.m()),
    {
        Vec3::dot(*self, *self)
    }

    pub fn length(&self) -> (r: i64)
        ensures
            r as int == sv_len(self.m()),
    {
        fsqrt(self.squared_length())
    }

    pub fn make_unit_vec(v: Vec3) -> (r: Vec3)
        ensures
            r.m() == sv_unit(v.m()),
    {
        let l: i64 = v.length();
        v.div_scalar(l)
    }

    pub fn dot(v1: Vec3, v2: Vec3) -> (r: i64)
        ensures
            r as int == sv_dot(v1.m(), v2.m()),
    {
        fadd(fadd(fmul(v1.x, v2.x), fmul(v1.y, v2.y)), fmul(v1.z, v2.z))
    }

    pub fn cross(v1: Vec3, v2: Vec3) -> (r: Vec3)
        ensures
            r.m() == sv_cross(v1.m(), v2.m()),
    {
        Vec3 {
            x: fsub(fmul(v1.y, v2.z), fmul(v1.z, v2.y)),
            y: fneg(fsub(fmul(v1.x, v2.z), fmul(v1.z, v2.x))),
            z: fsub(fmul(v1.x, v2.y), fmul(v1.y, v2.x)),
        }
    }

    /// Tolerance comparison: every component differs by at most `tol`.
    pub fn close_to(&self, o: &Vec3, tol: i64) -> (r: bool)
        requires
            0 <= tol < FX_LIMIT,
        ensures
            r <==> (abs_i(self.m().x - o.m().x) <= tol && abs_i(self.m().y - o.m().y) <= tol
                && abs_i(self.m().z - o.m().z) <= tol),
    {
        let dx: i64 = fsub(self.x, o.x);
        let dy: i64 = fsub(self.y, o.y);
        let dz: i64 = fsub(self.z, o.z);
        -tol <= dx && dx <= tol && -tol <= dy && dy <= tol && -tol <= dz && dz <= tol
    }
}

/// Vector addition is commutative.
pub proof fn lemma_add_commutes(a: V3, b: V3)
    ensures
        sv_add(a, b) == sv_add(b, a),
{
}

/// Vector addition is associative on vectors whose partial sums stay inside
/// the scalar range, so that no clipping occurs.
pub proof fn lemma_add_associates(a: V3, b: V3, c: V3)
    requires
        abs_i(a.x + b.x) <= FX_LIMIT as int,
        abs_i(a.y + b.y) <= FX_LIMIT as int,
        abs_i(a.z + b.z) <= FX_LIMIT as int,
        abs_i(b.x + c.x) <= FX_LIMIT as int,
        abs_i(b.y + c.y) <= FX_LIMIT as int,
        abs_i(b.z + c.z) <= FX_LIMIT as int,
        abs_i(a.x + b.x + c.x) <= FX_LIMIT as int,
        abs_i(a.y + b.y + c.y) <= FX_LIMIT as int,
        abs_i(a.z + b.z + c.z) <= FX_LIMIT as int,
    ensures
        sv_add(sv_add(a, b), c) == sv_add(a, sv_add(b, c)),
{
}

/// The dot product of a vector with its own cross product is zero up to the
/// truncation error of the fixed-point rescalings: for components of
/// magnitude at most 2^30, the residue is below 1.51 units.
pub proof fn lemma_dot_cross_orthogonal(a: V3, b: V3)
    requires
        abs_i(a.x) <= 1073741824,
        abs_i(a.y) <= 1073741824,
        abs_i(a.z) <= 1073741824,
        abs_i(b.x) <= 1073741824,
        abs_i(b.y) <= 1073741824,
        abs_i(b.z) <= 1073741824,
    ensures
        abs_i(sv_dot(a, sv_cross(a, b))) <= 98308,
{
    let p1 = a.y * b.z;
    let p2 = a.z * b.y;
    let p3 = a.x * b.z;
    let p4 = a.z * b.x;
    let p5 = a.x * b.y;
    let p6 = a.y * b.x;
    assert(abs_i(p1) <= 1152921504606846976 && abs_i(p2) <= 1152921504606846976 && abs_i(p3)
        <= 1152921504606846976 && abs_i(p4) <= 1152921504606846976 && abs_i(p5)
        <= 1152921504606846976 && abs_i(p6) <= 1152921504606846976) by (nonlinear_arith)
        requires
            abs_i(a.x) <= 1073741824,
            abs_i(a.y) <= 1073741824,
            abs_i(a.z) <= 1073741824,
            abs_i(b.x) <= 1073741824,
            abs_i(b.y) <= 1073741824,
            abs_i(b.z) <= 1073741824,
            p1 == a.y * b.z,
            p2 == a.z * b.y,
            p3 == a.x * b.z,
            p4 == a.z * b.x,
            p5 == a.x * b.y,
            p6 == a.y * b.x,
    {
    }
    let t1 = tdiv(p1, 65536);
    let t2 = tdiv(p2, 65536);
    let t3 = tdiv(p3, 65536);
    let t4 = tdiv(p4, 65536);
    let t5 = tdiv(p5, 65536);
    let t6 = tdiv(p6, 65536);
    lemma_tdiv16(p1);
    lemma_tdiv16(p2);
    lemma_tdiv16(p3);
    lemma_tdiv16(p4);
    lemma_tdiv16(p5);
    lemma_tdiv16(p6);
    // No rescaled product reaches the clipping bound, so the cross product's
    // components are plain differences of the rescaled products.
    assert(abs_i(t1) <= 17592186044416 && abs_i(t2) <= 17592186044416 && abs_i(t3)
        <= 17592186044416 && abs_i(t4) <= 17592186044416 && abs_i(t5) <= 17592186044416 && abs_i(
        t6,
    ) <= 17592186044416);
    let c = sv_cross(a, b);
    assert(c.x == t1 - t2 && c.y == t4 - t3 && c.z == t5 - t6);
    // The exact scalar triple product vanishes.
    assert(a.x * (p1 - p2) + a.y * (p4 - p3) + a.z * (p5 - p6) == 0) by (nonlinear_arith)
        requires
            p1 == a.y * b.z,
            p2 == a.z * b.y,
            p3 == a.x * b.z,
            p4 == a.z * b.x,
            p5 == a.x * b.y,
            p6 == a.y * b.x,
    {
    }
    // Each truncation residue, weighted by a component, is small.
    let g1 = (p1 - 65536 * t1) - (p2 - 65536 * t2);
    let g2 = (p3 - 65536 * t3) - (p4 - 65536 * t4);
    let g3 = (p5 - 65536 * t5) - (p6 - 65536 * t6);
    assert(abs_i(g1) <= 131070 && abs_i(g2) <= 131070 && abs_i(g3) <= 131070);
    assert(65536 * c.x == (p1 - p2) - g1);
    assert(65536 * c.y == (p4 - p3) + g2);
    assert(65536 * c.z == (p5 - p6) - g3);
    assert(65536 * (a.x * c.x) == a.x * (p1 - p2) - a.x * g1) by (nonlinear_arith)
        requires
            65536 * c.x == (p1 - p2) - g1,
    {
    }
    assert(65536 * (a.y * c.y) == a.y * (p4 - p3) + a.y * g2) by (nonlinear_arith)
        requires
            65536 * c.y == (p4 - p3) + g2,
    {
    }
    assert(65536 * (a.z * c.z) == a.z * (p5 - p6) - a.z * g3) by (nonlinear_arith)
        requires
            65536 * c.z == (p5 - p6) - g3,
    {
    }
    assert(65536 * (a.x * c.x + a.y * c.y + a.z * c.z) == -(a.x * g1) + a.y * g2 - (a.z * g3));
    assert(abs_i(a.x * g1) <= 140735340871680 && abs_i(a.y * g2) <= 140735340871680 && abs_i(
        a.z * g3,
    ) <= 140735340871680) by (nonlinear_arith)
        requires
            abs_i(a.x) <= 1073741824,
            abs_i(a.y) <= 1073741824,
            abs_i(a.z) <= 1073741824,
            abs_i(g1) <= 131070,
            abs_i(g2) <= 131070,
            abs_i(g3) <= 131070,
    {
    }
    let q1 = a.x * c.x;
    let q2 = a.y * c.y;
    let q3 = a.z * c.z;
    assert(abs_i(q1) <= 37778931862957161709568 && abs_i(q2) <= 37778931862957161709568 && abs_i(
        q3,
    ) <= 37778931862957161709568) by (nonlinear_arith)
        requires
            q1 == a.x * c.x,
            q2 == a.y * c.y,
            q3 == a.z * c.z,
            abs_i(a.x) <= 1073741824,
            abs_i(a.y) <= 1073741824,
            abs_i(a.z) <= 1073741824,
            abs_i(c.x) <= 35184372088832,
            abs_i(c.y) <= 35184372088832,
            abs_i(c.z) <= 35184372088832,
    {
    }
    let s1 = tdiv(q1, 65536);
    let s2 = tdiv(q2, 65536);
    let s3 = tdiv(q3, 65536);
    lemma_tdiv16(q1);
    lemma_tdiv16(q2);
    lemma_tdiv16(q3);
    assert(abs_i(s1) <= 576462849852571648 && abs_i(s2) <= 576462849852571648 && abs_i(s3)
        <= 576462849852571648);
    let d = sv_dot(a, c);
    assert(d == s1 + s2 + s3);
    // Scale the sum back up: the exact triple product cancels and only the
    // weighted residues remain.
    assert(65536 * (65536 * d) == (-(a.x * g1) + a.y * g2 - (a.z * g3)) - 65536 * ((q1 - 65536
        * s1) + (q2 - 65536 * s2) + (q3 - 65536 * s3)));
    assert(4294967296 * abs_i(d) <= 422218907320320);
    assert(abs_i(d) <= 98308);
}

/// Normalizing a vector whose squared length is at least one yields a vector
/// of length one, up to the truncation error of the divisions and square
/// roots: the length of the unit vector is within 8 units of `FX_ONE`.
pub proof fn lemma_unit_length(a: V3)
    requires
        abs_i(a.x) <= 1073741824,
        abs_i(a.y) <= 1073741824,
        abs_i(a.z) <= 1073741824,
        sv_dot(a, a) >= FX_ONE as int,
    ensures
        abs_i(sv_len(sv_unit(a)) - FX_ONE as int) <= 8,
{
    // The squared length of `a`, with the truncation residue of each square.
    let px = a.x * a.x;
    let py = a.y * a.y;
    let pz = a.z * a.z;
    assert(0 <= px <= 1152921504606846976 && 0 <= py <= 1152921504606846976 && 0 <= pz
        <= 1152921504606846976) by (nonlinear_arith)
        requires
            abs_i(a.x) <= 1073741824,
            abs_i(a.y) <= 1073741824,
            abs_i(a.z) <= 1073741824,
            px == a.x * a.x,
            py == a.y * a.y,
            pz == a.z * a.z,
    {
    }
    let mx = tdiv(px, 65536);
    let my = tdiv(py, 65536);
    let mz = tdiv(pz, 65536);
    lemma_tdiv_rem(px, 65536);
    lemma_tdiv_rem(py, 65536);
    lemma_tdiv_rem(pz, 65536);
    let rx = px - 65536 * mx;
    let ry = py - 65536 * my;
    let rz = pz - 65536 * mz;
    let d = mx + my + mz;
    assert(sv_dot(a, a) == d);
    assert(d >= 65536);
    // The length of `a`.
    lemma_sqrt_floor_bounds(d * 65536);
    let l = sqrt_floor(d * 65536);
    let eps = d * 65536 - l * l;
    assert((l + 1) * (l + 1) == l * l + 2 * l + 1) by (nonlinear_arith) {}
    assert(0 <= eps <= 2 * l);
    assert(l >= 65536) by (nonlinear_arith)
        requires
            d * 65536 < (l + 1) * (l + 1),
            d >= 65536,
            l >= 0,
    {
    }
    assert(sv_len(a) == l);
    // The components of the unit vector, with their division residues.
    let ux = tdiv(a.x * 65536, l);
    let uy = tdiv(a.y * 65536, l);
    let uz = tdiv(a.z * 65536, l);
    lemma_tdiv_rem(a.x * 65536, l);
    lemma_tdiv_rem(a.y * 65536, l);
    lemma_tdiv_rem(a.z * 65536, l);
    let sx = a.x * 65536 - l * ux;
    let sy = a.y * 65536 - l * uy;
    let sz = a.z * 65536 - l * uz;
    assert(abs_i(ux) <= abs_i(a.x) && abs_i(uy) <= abs_i(a.y) && abs_i(uz) <= abs_i(
        a.z,
    )) by (nonlinear_arith)
        requires
            abs_i(ux) * l <= abs_i(a.x * 65536),
            abs_i(uy) * l <= abs_i(a.y * 65536),
            abs_i(uz) * l <= abs_i(a.z * 65536),
            l >= 65536,
            abs_i(ux) >= 0,
            abs_i(uy) >= 0,
            abs_i(uz) >= 0,
            abs_i(a.x) >= 0,
            abs_i(a.y) >= 0,
            abs_i(a.z) >= 0,
    {
    }
    let u = sv_unit(a);
    assert(u.x == ux && u.y == uy && u.z == uz);
    // The squared length of the unit vector.
    let qx = ux * ux;
    let qy = uy * uy;
    let qz = uz * uz;
    assert(0 <= qx <= 1152921504606846976 && 0 <= qy <= 1152921504606846976 && 0 <= qz
        <= 1152921504606846976) by (nonlinear_arith)
        requires
            abs_i(ux) <= 1073741824,
            abs_i(uy) <= 1073741824,
            abs_i(uz) <= 1073741824,
            qx == ux * ux,
            qy == uy * uy,
            qz == uz * uz,
    {
    }
    let tx = tdiv(qx, 65536);
    let ty = tdiv(qy, 65536);
    let tz = tdiv(qz, 65536);
    lemma_tdiv_rem(qx, 65536);
    lemma_tdiv_rem(qy, 65536);
    lemma_tdiv_rem(qz, 65536);
    let w = (qx - 65536 * tx) + (qy - 65536 * ty) + (qz - 65536 * tz);
    let dd = tx + ty + tz;
    assert(sv_dot(u, u) == dd);
    // Scale each squared component back by the squared length of `a`.
    assert(l * l * qx == 4294967296 * px - 131072 * (a.x * sx) + sx * sx) by (nonlinear_arith)
        requires
            l * ux == a.x * 65536 - sx,
            qx == ux * ux,
            px == a.x * a.x,
    {
    }
    assert(l * l * qy == 4294967296 * py - 131072 * (a.y * sy) + sy * sy) by (nonlinear_arith)
        requires
            l * uy == a.y * 65536 - sy,
            qy == uy * uy,
            py == a.y * a.y,
    {
    }
    assert(l * l * qz == 4294967296 * pz - 131072 * (a.z * sz) + sz * sz) by (nonlinear_arith)
        requires
            l * uz == a.z * 65536 - sz,
            qz == uz * uz,
            pz == a.z * a.z,
    {
    }
    let s_as = a.x * sx + a.y * sy + a.z * sz;
    let s_s2 = sx * sx + sy * sy + sz * sz;
    let g = l * l * qx + l * l * qy + l * l * qz - 4294967296 * (l * l);
    assert(g == 4294967296 * eps + 4294967296 * (rx + ry + rz) - 131072 * s_as + s_s2);
    // Each component is at most one unit longer than the length.
    assert(px <= 65536 * d + 65535 && py <= 65536 * d + 65535 && pz <= 65536 * d + 65535);
    assert(abs_i(a.x) <= l + 1 && abs_i(a.y) <= l + 1 && abs_i(a.z) <= l + 1) by (nonlinear_arith)
        requires
            px == a.x * a.x,
            py == a.y * a.y,
            pz == a.z * a.z,
            px <= l * l + 2 * l + 65535,
            py <= l * l + 2 * l + 65535,
            pz <= l * l + 2 * l + 65535,
            l >= 65536,
    {
    }
    // Bound every residue term by a multiple of the squared length.
    assert(abs_i(a.x * sx) <= (l + 1) * l && abs_i(a.y * sy) <= (l + 1) * l && abs_i(a.z * sz)
        <= (l + 1) * l && 0 <= sx * sx <= l * l && 0 <= sy * sy <= l * l && 0 <= sz * sz <= l * l
        && (l + 1) * l >= 0) by (nonlinear_arith)
        requires
            abs_i(a.x) <= l + 1,
            abs_i(a.y) <= l + 1,
            abs_i(a.z) <= l + 1,
            abs_i(sx) <= l,
            abs_i(sy) <= l,
            abs_i(sz) <= l,
            l >= 0,
    {
    }
    assert(4294967296 * eps <= 131072 * (l * l) && 393216 * ((l + 1) * l) <= 393222 * (l * l)
        && 4294967296 * (rx + ry + rz) <= 196608 * (l * l)) by (nonlinear_arith)
        requires
            0 <= eps <= 2 * l,
            l >= 65536,
            0 <= rx + ry + rz <= 196605,
    {
    }
    assert(abs_i(g) <= 720905 * (l * l));
    // Divide by the squared length of `a`.
    assert(abs_i(qx + qy + qz - 4294967296) <= 720905) by (nonlinear_arith)
        requires
            l * l * qx + l * l * qy + l * l * qz - 4294967296 * (l * l) == g,
            abs_i(g) <= 720905 * (l * l),
            l >= 65536,
    {
    }
    assert(abs_i(65536 * dd - 4294967296) <= 917510);
    assert(65536 - 14 <= dd <= 65536 + 14);
    // The length of the unit vector.
    lemma_sqrt_floor_bounds(dd * 65536);
    let l2 = sqrt_floor(dd * 65536);
    assert(sv_len(u) == l2);
    assert(65528 <= l2 <= 65543) by (nonlinear_arith)
        requires
            l2 * l2 <= dd * 65536,
            dd * 65536 < (l2 + 1) * (l2 + 1),
            65522 <= dd <= 65550,
            l2 >= 0,
    {
    }
}

} // verus!
