// The intersection, scattering and rendering pipeline, in raw fixed-point
// units (65536 is 1.0).

use raytrace::camera::Camera;
use raytrace::fixed::{FX_LIMIT, FX_ONE};
use raytrace::material::{Material, Scatterable};
use raytrace::object::list::HitableList;
use raytrace::object::Hitable;
use raytrace::object::sphere::Sphere;
use raytrace::ray::Ray;
use raytrace::render::{color, finish_pixel, gen_scene, render, render_par, Pixel};
use raytrace::rng::{random_in_unit_disk, random_in_unit_sphere, Sampler};
use raytrace::vec3::Vec3;

fn gray() -> Material {
    Material::Lambertian { albedo: Vec3::new(32768, 32768, 32768) }
}

#[test]
fn sphere_hit_straight_ahead() {
    // A ray from the origin toward -z against a unit sphere centered five
    // units ahead hits at t = 4 with normal +z.
    let s = Sphere::new(Vec3::new(0, 0, -5 * FX_ONE), FX_ONE, gray());
    let r = Ray::new(Vec3::new(0, 0, 0), Vec3::new(0, 0, -FX_ONE));
    let rec = s.hit(&r, 7, FX_LIMIT).expect("the sphere lies on the ray");
    assert_eq!(rec.t, 4 * FX_ONE);
    assert_eq!(rec.normal, Vec3::new(0, 0, FX_ONE));
    assert_eq!(rec.p, Vec3::new(0, 0, -4 * FX_ONE));
}

#[test]
fn sphere_behind_ray_misses() {
    let s = Sphere::new(Vec3::new(0, 0, 5 * FX_ONE), FX_ONE, gray());
    let r = Ray::new(Vec3::new(0, 0, 0), Vec3::new(0, 0, -FX_ONE));
    assert!(s.hit(&r, 7, FX_LIMIT).is_none());
}

#[test]
fn scene_closest_hit_is_order_independent() {
    let near = Sphere::new(Vec3::new(0, 0, -5 * FX_ONE), FX_ONE, gray());
    let far = Sphere::new(
        Vec3::new(0, 0, -10 * FX_ONE),
        FX_ONE,
        Material::Metal { albedo: Vec3::new(45875, 39322, 32768), fuzz: 0 },
    );
    let r = Ray::new(Vec3::new(0, 0, 0), Vec3::new(0, 0, -FX_ONE));

    let mut world_a = HitableList::new();
    world_a.add(near);
    world_a.add(far);
    let mut world_b = HitableList::new();
    world_b.add(far);
    world_b.add(near);

    let rec_a = world_a.hit(&r, 7, FX_LIMIT).expect("both spheres lie on the ray");
    let rec_b = world_b.hit(&r, 7, FX_LIMIT).expect("both spheres lie on the ray");
    assert_eq!(rec_a, rec_b);
    assert_eq!(rec_a.t, 4 * FX_ONE);
    assert_eq!(rec_a.mat, gray());
}

#[test]
fn viewer_inside_sphere_looking_outward_misses() {
    // Only the near quadratic root is ever tried: from inside the sphere it
    // lies behind the origin, so the query reports a miss.
    let s = Sphere::new(Vec3::new(0, 0, 0), 2 * FX_ONE, gray());
    let r = Ray::new(Vec3::new(0, 0, 0), Vec3::new(0, 0, -FX_ONE));
    assert!(s.hit(&r, 7, FX_LIMIT).is_none());
}

#[test]
fn dielectric_at_normal_incidence_reflects_or_refracts_straight() {
    // Entering glass head on: the refracted direction continues straight,
    // the reflected one returns along the normal; the draw picks one, and
    // the attenuation is always white.
    let mat = Material::Dielectric { ri: 98304 };
    let r_in = Ray::new(Vec3::new(0, 0, 0), Vec3::new(0, 0, -FX_ONE));
    let rec = raytrace::object::HitRecord::new(
        FX_ONE,
        Vec3::new(0, 0, -FX_ONE),
        Vec3::new(0, 0, FX_ONE),
        mat,
    );
    for seed in 0..16u64 {
        let mut att = Vec3::new(0, 0, 0);
        let mut sc = Ray::new(Vec3::new(0, 0, 0), Vec3::new(0, 0, 0));
        let mut smp = Sampler::seeded(seed);
        assert!(mat.scatter(&r_in, &rec, &mut att, &mut sc, &mut smp));
        assert_eq!(att, Vec3::new(FX_ONE, FX_ONE, FX_ONE));
        let d = sc.direction();
        assert!(d == Vec3::new(0, 0, -FX_ONE) || d == Vec3::new(0, 0, FX_ONE));
    }
}

#[test]
fn metal_mirror_scatters_outward() {
    let mat = Material::Metal { albedo: Vec3::new(45875, 39322, 32768), fuzz: 0 };
    let r_in = Ray::new(Vec3::new(0, 0, 0), Vec3::new(0, 0, -FX_ONE));
    let rec = raytrace::object::HitRecord::new(
        FX_ONE,
        Vec3::new(0, 0, -FX_ONE),
        Vec3::new(0, 0, FX_ONE),
        mat,
    );
    let mut att = Vec3::new(0, 0, 0);
    let mut sc = Ray::new(Vec3::new(0, 0, 0), Vec3::new(0, 0, 0));
    let mut smp = Sampler::seeded(1);
    let res = mat.scatter(&r_in, &rec, &mut att, &mut sc, &mut smp);
    assert!(res);
    assert_eq!(sc.direction(), Vec3::new(0, 0, FX_ONE));
    assert_eq!(att, Vec3::new(45875, 39322, 32768));
}

#[test]
fn metal_mirror_absorbs_below_surface() {
    // The reflected direction points at the back of the surface, so the ray
    // is absorbed.
    let mat = Material::Metal { albedo: Vec3::new(45875, 39322, 32768), fuzz: 0 };
    let r_in = Ray::new(Vec3::new(0, 0, 0), Vec3::new(0, 0, -FX_ONE));
    let rec = raytrace::object::HitRecord::new(
        FX_ONE,
        Vec3::new(0, 0, -FX_ONE),
        Vec3::new(0, 0, -FX_ONE),
        mat,
    );
    let mut att = Vec3::new(0, 0, 0);
    let mut sc = Ray::new(Vec3::new(0, 0, 0), Vec3::new(0, 0, 0));
    let mut smp = Sampler::seeded(1);
    let res = mat.scatter(&r_in, &rec, &mut att, &mut sc, &mut smp);
    assert!(!res);
}

#[test]
fn lambertian_always_scatters() {
    let mat = gray();
    let r_in = Ray::new(Vec3::new(0, 0, 0), Vec3::new(0, 0, -FX_ONE));
    let rec = raytrace::object::HitRecord::new(
        FX_ONE,
        Vec3::new(0, 0, -FX_ONE),
        Vec3::new(0, 0, FX_ONE),
        mat,
    );
    let mut att = Vec3::new(0, 0, 0);
    let mut sc = Ray::new(Vec3::new(0, 0, 0), Vec3::new(0, 0, 0));
    let mut smp = Sampler::system();
    for _ in 0..32 {
        assert!(mat.scatter(&r_in, &rec, &mut att, &mut sc, &mut smp));
        assert_eq!(att, Vec3::new(32768, 32768, 32768));
    }
}

#[test]
fn dielectric_total_internal_reflection_always_reflects() {
    // A ray exiting glass beyond the critical angle: the refraction
    // discriminant is nonpositive, so the scattered ray is the reflection.
    let mat = Material::Dielectric { ri: 98304 };
    let r_in = Ray::new(Vec3::new(0, 0, 0), Vec3::new(39322, 52429, 0));
    let rec = raytrace::object::HitRecord::new(
        FX_ONE,
        Vec3::new(0, 0, 0),
        Vec3::new(FX_ONE, 0, 0),
        mat,
    );
    for seed in 0..16u64 {
        let mut att = Vec3::new(0, 0, 0);
        let mut sc = Ray::new(Vec3::new(0, 0, 0), Vec3::new(0, 0, 0));
        let mut smp = Sampler::seeded(seed);
        let res = mat.scatter(&r_in, &rec, &mut att, &mut sc, &mut smp);
        assert!(res);
        assert_eq!(att, Vec3::new(FX_ONE, FX_ONE, FX_ONE));
        assert_eq!(sc.direction(), Vec3::new(-39322, 52429, 0));
    }
}

#[test]
fn color_returns_black_at_depth_cap() {
    let mut world = HitableList::new();
    world.add(Sphere::new(
        Vec3::new(0, 0, -5 * FX_ONE),
        FX_ONE,
        Material::Metal { albedo: Vec3::new(65536, 65536, 65536), fuzz: 0 },
    ));
    let r = Ray::new(Vec3::new(0, 0, 0), Vec3::new(0, 0, -FX_ONE));
    let mut smp = Sampler::seeded(9);
    let c = color(&r, &world, 50, &mut smp);
    assert_eq!(c, Vec3::new(0, 0, 0));
}

#[test]
fn color_miss_is_background_gradient() {
    let world = HitableList::new();
    let mut smp = Sampler::seeded(3);
    // Straight up: the sky-blue end of the gradient.
    let up = color(&Ray::new(Vec3::new(0, 0, 0), Vec3::new(0, FX_ONE, 0)), &world, 0, &mut smp);
    assert_eq!(up, Vec3::new(32768, 45875, 65536));
    // Straight down: the white end.
    let down = color(&Ray::new(Vec3::new(0, 0, 0), Vec3::new(0, -FX_ONE, 0)), &world, 0, &mut smp);
    assert_eq!(down, Vec3::new(65536, 65536, 65536));
}

#[test]
fn quantizer_truncates_and_saturates() {
    // Full white accumulates to channel 255; a quarter to 128; black to 0.
    assert_eq!(
        finish_pixel(&Vec3::new(FX_ONE, 16384, 0), 1),
        Pixel { r: 255, g: 128, b: 0 }
    );
    // Radiance beyond white still saturates at 255, and negative values at 0.
    assert_eq!(
        finish_pixel(&Vec3::new(10 * FX_ONE, -FX_ONE, 0), 1),
        Pixel { r: 255, g: 0, b: 0 }
    );
    // Averaging over four samples of full white is still full white.
    assert_eq!(finish_pixel(&Vec3::new(4 * FX_ONE, 0, 0), 4).r, 255);
}

#[test]
fn sampler_draws_lie_in_the_unit_interval() {
    let mut s = Sampler::system();
    for _ in 0..256 {
        let u = s.next_unit();
        assert!((0..65536).contains(&u));
    }
    let mut d = Sampler::seeded(7);
    for _ in 0..256 {
        let u = d.next_unit();
        assert!((0..65536).contains(&u));
    }
}

#[test]
fn seeded_sampler_is_reproducible() {
    let mut a = Sampler::seeded(12345);
    let mut b = Sampler::seeded(12345);
    for _ in 0..64 {
        assert_eq!(a.next_unit(), b.next_unit());
    }
}

#[test]
fn rejection_samplers_stay_inside() {
    let mut s = Sampler::system();
    for _ in 0..64 {
        let p = random_in_unit_sphere(&mut s);
        assert!(Vec3::dot(p, p) < FX_ONE);
        let d = random_in_unit_disk(&mut s);
        assert!(Vec3::dot(d, d) < FX_ONE);
        assert_eq!(d.z(), 0);
    }
}

#[test]
fn generated_scene_is_well_formed() {
    let mut smp = Sampler::seeded(2024);
    let world = gen_scene(&mut smp);
    assert!(world.list.len() >= 4);
    for s in world.list.iter() {
        assert!(s.radius > 0);
        match s.mat {
            Material::Lambertian { albedo } | Material::Metal { albedo, .. } => {
                for c in [albedo.x, albedo.y, albedo.z] {
                    assert!((0..=FX_ONE).contains(&c));
                }
            },
            Material::Dielectric { ri } => assert!(ri > FX_ONE),
        }
        if let Material::Metal { fuzz, .. } = s.mat {
            assert!((0..=FX_ONE).contains(&fuzz));
        }
    }
}

#[test]
fn camera_with_closed_aperture_starts_rays_at_the_eye() {
    let cam = Camera::new(
        Vec3::new(0, 0, 0),
        Vec3::new(0, 0, -FX_ONE),
        Vec3::new(0, FX_ONE, 0),
        90 * FX_ONE,
        FX_ONE,
        0,
        FX_ONE,
    );
    let mut smp = Sampler::seeded(5);
    let r = cam.get_ray(32768, 32768, &mut smp);
    assert_eq!(r.origin(), Vec3::new(0, 0, 0));
}

#[test]
fn two_by_two_render_is_deterministic() {
    // A single diffuse sphere filling the frame, one sample per pixel, fixed
    // seed: the render is reproducible, and the parallel renderer agrees
    // with the sequential one.
    let mut world = HitableList::new();
    world.add(Sphere::new(Vec3::new(0, 0, -2 * FX_ONE), FX_ONE, gray()));
    let cam = Camera::new(
        Vec3::new(0, 0, 0),
        Vec3::new(0, 0, -FX_ONE),
        Vec3::new(0, FX_ONE, 0),
        90 * FX_ONE,
        FX_ONE,
        0,
        2 * FX_ONE,
    );
    let seed = Some(42u64);
    let img1 = render(&world, &cam, 2, 2, 1, &seed);
    let img2 = render(&world, &cam, 2, 2, 1, &seed);
    assert_eq!(img1.len(), 2);
    assert_eq!(img1[0].len(), 2);
    assert_eq!(img1[1].len(), 2);
    assert_eq!(img1, img2);
    let img3 = render_par(&world, &cam, 2, 2, 1, &seed);
    assert_eq!(img1, img3);
    // The golden buffer for this seed, pinned as a regression reference.
    let golden = vec![
        vec![Pixel { r: 162, g: 170, b: 181 }, Pixel { r: 199, g: 224, b: 255 }],
        vec![Pixel { r: 223, g: 236, b: 255 }, Pixel { r: 243, g: 248, b: 255 }],
    ];
    assert_eq!(img1, golden);
}
