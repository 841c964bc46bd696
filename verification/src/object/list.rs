//! The scene: an unordered collection of spheres searched linearly for the
//! closest hit.

use vstd::prelude::*;
use crate::object::sphere::{sphere_hit_m, Sphere};
use crate::object::{opt_m, HitM, HitRecord, Hitable};
use crate::ray::Ray;
use crate::vec3::V3;

verus! {

/// The linear scan from index `i` onward, with the closest hit so far as the
/// shrinking upper parameter bound: each accepted hit replaces `cur` and
/// tightens `closest`, so the final result is the globally nearest hit.
pub open spec fn scene_hit_from(
    spheres: Seq<Sphere>,
    ro: V3,
    rd: V3,
    tmin: int,
    i: int,
    closest: int,
    cur: Option<HitM>,
) -> Option<HitM>
    decreases spheres.len() - i,
{
    if i < 0 || i >= spheres.len() {
        cur
    } else {
        match sphere_hit_m(spheres[i], ro, rd, tmin, closest) {
            Option::Some(h) => scene_hit_from(spheres, ro, rd, tmin, i + 1, h.t, Option::Some(h)),
            Option::None => scene_hit_from(spheres, ro, rd, tmin, i + 1, closest, cur),
        }
    }
}

/// The closest hit of a ray against the whole scene inside `(tmin, tmax)`.
pub open spec fn scene_hit_m(
    spheres: Seq<Sphere>,
    ro: V3,
    rd: V3,
    tmin: int,
    tmax: int,
) -> Option<HitM> {
    scene_hit_from(spheres, ro, rd, tmin, 0, tmax, Option::None)
}

pub struct HitableList {
    pub list: Vec<Sphere>,
}

impl HitableList {
    /// The spheres of the scene.
    pub open spec fn spheres(self) -> Seq<Sphere> {
        self.list@
    }

    /// Every sphere of the scene satisfies its data-model invariant.
    pub open spec fn wf(self) -> bool {
        forall|i: int| 0 <= i < self.spheres().len() ==> (#[trigger] self.spheres()[i]).wf()
    }

    pub fn new() -> (r: HitableList)
        ensures
            r.spheres() == Seq::<Sphere>::empty(),
    {
        HitableList { list: Vec::new() }
    }

    pub fn add(&mut self, s: Sphere)
        ensures
            final(self).spheres() == old(self).spheres().push(s),
    {
        self.list.push(s);
    }
}

impl Hitable for HitableList {
    open spec fn hit_post(&self, r: Ray, min: i64, max: i64, res: Option<HitRecord>) -> bool {
        opt_m(res) == scene_hit_m(self.spheres(), r.m().orig, r.m().dir, min as int, max as int)
    }

    /// The closest hit of `r` against the scene inside `(min, max)`: a linear
    /// scan, shrinking the upper bound to the best parameter found so far.
    fn hit(&self, r: &Ray, min: i64, max: i64) -> (res: Option<HitRecord>) {
        let mut closest_so_far: i64 = max;
        let mut result: Option<HitRecord> = Option::None;
        let n: usize = self.list.len();
        let mut i: usize = 0;
        while i < n
            invariant
                n == self.spheres().len(),
                i <= n,
                scene_hit_from(
                    self.spheres(),
                    r.m().orig,
                    r.m().dir,
                    min as int,
                    i as int,
                    closest_so_far as int,
                    opt_m(result),
                ) == scene_hit_m(
                    self.spheres(),
                    r.m().orig,
                    r.m().dir,
                    min as int,
                    max as int,
                ),
            decreases n - i,
        {
            let s: Sphere = self.list[i];
            let tmp_rec = s.hit(r, min, closest_so_far);
            match tmp_rec {
                Option::Some(rec) => {
                    closest_so_far = rec.t;
                    result = Option::Some(rec);
                },
                Option::None => {},
            }
            i = i + 1;
        }
        result
    }
}

proof fn lemma_scene_hit_from_wf(
    spheres: Seq<Sphere>,
    ro: V3,
    rd: V3,
    tmin: int,
    i: int,
    closest: int,
    cur: Option<HitM>,
)
    requires
        forall|k: int| 0 <= k < spheres.len() ==> (#[trigger] spheres[k]).wf(),
        cur is Some ==> cur->Some_0.mat.wf(),
    ensures
        scene_hit_from(spheres, ro, rd, tmin, i, closest, cur) is Some ==> scene_hit_from(
            spheres,
            ro,
            rd,
            tmin,
            i,
            closest,
            cur,
        )->Some_0.mat.wf(),
    decreases spheres.len() - i,
{
    if 0 <= i < spheres.len() {
        match sphere_hit_m(spheres[i], ro, rd, tmin, closest) {
            Option::Some(h) => {
                assert(h.mat == spheres[i].mat);
                lemma_scene_hit_from_wf(spheres, ro, rd, tmin, i + 1, h.t, Option::Some(h));
            },
            Option::None => {
                lemma_scene_hit_from_wf(spheres, ro, rd, tmin, i + 1, closest, cur);
            },
        }
    }
}

/// The material of a closest hit against a well-formed scene satisfies the
/// material invariants: it is one of the scene's own.
pub proof fn lemma_scene_hit_wf(spheres: Seq<Sphere>, ro: V3, rd: V3, tmin: int, tmax: int)
    requires
        forall|k: int| 0 <= k < spheres.len() ==> (#[trigger] spheres[k]).wf(),
    ensures
        scene_hit_m(spheres, ro, rd, tmin, tmax) is Some ==> scene_hit_m(
            spheres,
            ro,
            rd,
            tmin,
            tmax,
        )->Some_0.mat.wf(),
{
    lemma_scene_hit_from_wf(spheres, ro, rd, tmin, 0, tmax, Option::None);
}

/// Closest-hit order independence: when two spheres both intersect a ray at
/// different depths, the scene query returns the nearer hit whichever order
/// the spheres were inserted in.
pub proof fn lemma_scene_two_order(s1: Sphere, s2: Sphere, ro: V3, rd: V3, tmin: int, tmax: int)
    requires
        sphere_hit_m(s1, ro, rd, tmin, tmax) is Some,
        sphere_hit_m(s2, ro, rd, tmin, tmax) is Some,
        sphere_hit_m(s1, ro, rd, tmin, tmax)->Some_0.t != sphere_hit_m(
            s2,
            ro,
            rd,
            tmin,
            tmax,
        )->Some_0.t,
    ensures
        scene_hit_m(seq![s1, s2], ro, rd, tmin, tmax) == scene_hit_m(
            seq![s2, s1],
            ro,
            rd,
            tmin,
            tmax,
        ),
        scene_hit_m(seq![s1, s2], ro, rd, tmin, tmax) is Some,
        scene_hit_m(seq![s1, s2], ro, rd, tmin, tmax)->Some_0.t == if sphere_hit_m(
            s1,
            ro,
            rd,
            tmin,
            tmax,
        )->Some_0.t < sphere_hit_m(s2, ro, rd, tmin, tmax)->Some_0.t {
            sphere_hit_m(s1, ro, rd, tmin, tmax)->Some_0.t
        } else {
            sphere_hit_m(s2, ro, rd, tmin, tmax)->Some_0.t
        },
{
    let h1 = sphere_hit_m(s1, ro, rd, tmin, tmax)->Some_0;
    let h2 = sphere_hit_m(s2, ro, rd, tmin, tmax)->Some_0;
    let sa = seq![s1, s2];
    let sb = seq![s2, s1];
    assert(sa[0] == s1 && sa[1] == s2 && sb[0] == s2 && sb[1] == s1);
    if h1.t < h2.t {
        // In order [s1, s2]: s1 hits at t1; s2's root is no longer below the
        // tightened bound t1, so it is rejected.
        assert(sphere_hit_m(s2, ro, rd, tmin, h1.t) is None);
        assert(scene_hit_from(sa, ro, rd, tmin, 2, h1.t, Option::Some(h1)) == Option::Some(h1));
        assert(scene_hit_from(sa, ro, rd, tmin, 1, h1.t, Option::Some(h1)) == Option::Some(h1));
        // In order [s2, s1]: s2 hits at t2, then s1's nearer root replaces it.
        assert(sphere_hit_m(s1, ro, rd, tmin, h2.t) == Option::Some(h1));
        assert(scene_hit_from(sb, ro, rd, tmin, 1, h2.t, Option::Some(h2)) == scene_hit_from(
            sb,
            ro,
            rd,
            tmin,
            2,
            h1.t,
            Option::Some(h1),
        ));
    } else {
        assert(sphere_hit_m(s1, ro, rd, tmin, h2.t) is None);
        assert(scene_hit_from(sb, ro, rd, tmin, 2, h2.t, Option::Some(h2)) == Option::Some(h2));
        assert(scene_hit_from(sb, ro, rd, tmin, 1, h2.t, Option::Some(h2)) == Option::Some(h2));
        assert(sphere_hit_m(s2, ro, rd, tmin, h1.t) == Option::Some(h2));
        assert(scene_hit_from(sa, ro, rd, tmin, 1, h1.t, Option::Some(h1)) == scene_hit_from(
            sa,
            ro,
            rd,
            tmin,
            2,
            h2.t,
            Option::Some(h2),
        ));
    }
}

} // verus!
