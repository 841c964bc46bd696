//! Random scalar source for the stochastic sampling loops.
//!
//! A `Sampler` either draws from the process-wide thread-local generator of
//! the `rand` crate (one independent stream per thread, so parallel tasks
//! never share generator state), or steps a deterministic 64-bit mixer from a
//! caller-supplied seed, which makes a render reproducible.

use vstd::prelude::*;
use crate::fixed::{FX_ONE, FX_TWO};
use crate::vec3::{sv_dot, V3, Vec3};

verus! {

/// A 64-bit product reduced modulo 2^64.
pub open spec fn wmul64(a: u64, b: u64) -> u64 {
    ((a as u128) * (b as u128)) as u64
}

/// The finalizing mixer, as a function of its input alone.
pub open spec fn mix64_m(v: u64) -> u64 {
    let z1 = wmul64(v ^ (v >> 30), 0xBF58476D1CE4E5B9);
    let z2 = wmul64(z1 ^ (z1 >> 27), 0x94D049BB133111EB);
    z2 ^ (z2 >> 31)
}

/// A point strictly inside the unit sphere.
pub open spec fn in_unit_sphere_m(p: V3) -> bool {
    sv_dot(p, p) < FX_ONE as int
}

/// A point strictly inside the unit disk of the plane `z == 0`.
pub open spec fn in_unit_disk_m(p: V3) -> bool {
    sv_dot(p, p) < FX_ONE as int && p.z == 0
}

/// Relies on `rand::random::<u32>()`: one draw from the thread-local
/// generator.  Nothing is assumed of the value.
#[verifier::external_body]
fn random_u32() -> u32 {
    rand::random::<u32>()
}

#[derive(Clone, Copy, Debug)]
pub struct Sampler {
    pub seeded: bool,
    pub state: u64,
}

impl Sampler {
    /// A sampler backed by the thread-local generator of `rand`.
    pub fn system() -> (r: Sampler)
        ensures
            !r.seeded,
    {
        Sampler { seeded: false, state: 0 }
    }

    /// A deterministic sampler: equal seeds give equal draw sequences.
    pub fn seeded(seed: u64) -> (r: Sampler)
        ensures
            r.seeded,
    {
        Sampler { seeded: true, state: seed }
    }

    /// A sampler for one task of a parallel render: deterministic samplers
    /// are re-seeded per task so that tasks have independent streams.
    pub fn for_task(seed: &Option<u64>, task: u64) -> (r: Sampler)
        ensures
            r.seeded <==> seed is Some,
    {
        match seed {
            Option::Some(s) => {
                let mixed: u64 = mix64(*s ^ task.wrapping_mul(0x9E3779B97F4A7C15));
                Sampler { seeded: true, state: mixed }
            },
            Option::None => Sampler { seeded: false, state: 0 },
        }
    }

    /// One uniform draw in `[0, 1)`, as a fixed-point scalar.  A seeded
    /// sampler is a pure function of its state: the new state and the draw
    /// are pinned, which is what makes a seeded render reproducible.
    pub fn next_unit(&mut self) -> (r: i64)
        ensures
            0 <= r < FX_ONE as int,
            final(self).seeded == old(self).seeded,
            old(self).seeded ==> final(self).state == vstd::wrapping::u64_specs::wrapping_add(
                old(self).state,
                0x9E3779B97F4A7C15,
            ) && r == (mix64_m(final(self).state) >> 48) as i64,
            !old(self).seeded ==> final(self).state == old(self).state,
    {
        if self.seeded {
            self.state = self.state.wrapping_add(0x9E3779B97F4A7C15);
            let z: u64 = mix64(self.state);
            let hi: u64 = z >> 48;
            proof {
                assert(z >> 48 < 65536) by (bit_vector);
            }
            hi as i64
        } else {
            let w: u32 = random_u32();
            let hi: u32 = w >> 16;
            proof {
                assert(w >> 16 < 65536) by (bit_vector);
            }
            hi as i64
        }
    }
}

/// Rejection sampling of a point inside the unit sphere: draw three uniform
/// scalars in `[-1, 1]` and accept when the squared length is below one.  The
/// loop terminates almost surely; a defensive iteration cap falls back to the
/// origin, which lies inside the sphere.
pub fn random_in_unit_sphere(smp: &mut Sampler) -> (p: Vec3)
    ensures
        in_unit_sphere_m(p.m()),
        final(smp).seeded == old(smp).seeded,
{
    let mut i: usize = 0;
    while i < 64
        invariant
            smp.seeded == old(smp).seeded,
        decreases 64 - i,
    {
        let c = Vec3::new(
            crate::fixed::fsub(crate::fixed::fmul(FX_TWO, smp.next_unit()), FX_ONE),
            crate::fixed::fsub(crate::fixed::fmul(FX_TWO, smp.next_unit()), FX_ONE),
            crate::fixed::fsub(crate::fixed::fmul(FX_TWO, smp.next_unit()), FX_ONE),
        );
        if c.squared_length() < FX_ONE {
            return c;
        }
        i = i + 1;
    }
    Vec3::new(0, 0, 0)
}

/// Rejection sampling of a point inside the unit disk (`z == 0`), with the
/// same defensive iteration cap as the sphere sampler.
pub fn random_in_unit_disk(smp: &mut Sampler) -> (p: Vec3)
    ensures
        in_unit_disk_m(p.m()),
        final(smp).seeded == old(smp).seeded,
{
    let mut i: usize = 0;
    while i < 64
        invariant
            smp.seeded == old(smp).seeded,
        decreases 64 - i,
    {
        let c = Vec3::new(
            crate::fixed::fsub(crate::fixed::fmul(FX_TWO, smp.next_unit()), FX_ONE),
            crate::fixed::fsub(crate::fixed::fmul(FX_TWO, smp.next_unit()), FX_ONE),
            0,
        );
        if Vec3::dot(c, c) < FX_ONE {
            return c;
        }
        i = i + 1;
    }
    Vec3::new(0, 0, 0)
}

/// A 64-bit finalizing mixer.
fn mix64(v: u64) -> (r: u64)
    ensures
        r == mix64_m(v),
{
    let mut z: u64 = v;
    z = #[verifier::truncate] (((z ^ (z >> 30)) as u128 * 0xBF58476D1CE4E5B9) as u64);
    proof {
        assert(z == wmul64(v ^ (v >> 30), 0xBF58476D1CE4E5B9));
    }
    let z1: u64 = z;
    z = #[verifier::truncate] (((z ^ (z >> 27)) as u128 * 0x94D049BB133111EB) as u64);
    proof {
        assert(z == wmul64(z1 ^ (z1 >> 27), 0x94D049BB133111EB));
    }
    z ^ (z >> 31)
}

} // verus!
