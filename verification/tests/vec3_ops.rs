// Vector arithmetic, in raw fixed-point units (65536 is 1.0).

use raytrace::fixed::{fadd, fdiv, fmul, fsqrt, fsub, FX_LIMIT, FX_ONE};
use raytrace::vec3::Vec3;

#[test]
fn test_eq() {
    let a = Vec3::new(65536, 131072, 196609);
    let b = Vec3::new(65536, 131072, 196608);
    assert!(a.close_to(&b, 1));
}

#[test]
fn test_ne() {
    let a = Vec3::new(65536, 131072, 203161);
    let b = Vec3::new(65536, 131072, 196608);
    assert!(!a.close_to(&b, 1));
}

#[test]
fn test_index() {
    let a = Vec3::new(65536, 131072, 203161);
    assert_eq!(a.x(), 65536);
    assert_eq!(a.y(), 131072);
    assert_eq!(a.z(), 203161);
}

#[test]
fn test_index_assign() {
    let mut a = Vec3::new(65536, 131072, 203161);
    a.x = 131072;
    assert_eq!(a.x(), 131072);
    a.y = 196608;
    assert_eq!(a.y(), 196608);
    a.z = 262144;
    assert_eq!(a.z(), 262144);
}

#[test]
fn test_neg() {
    let a = Vec3::new(65536, 131072, 203161);
    let answer = Vec3::new(-65536, -131072, -203161);
    assert_eq!(a.negate(), answer);
}

#[test]
fn test_add() {
    let a = Vec3::new(65536, 131072, 203161);
    let b = Vec3::new(65536, 131072, 203161);
    let answer = Vec3::new(131072, 262144, 406322);
    assert_eq!(a.plus(&b), answer);
}

#[test]
fn test_sub() {
    let a = Vec3::new(65536, 131072, 203161);
    let b = Vec3::new(65536, 131072, 203161);
    let answer = Vec3::new(0, 0, 0);
    assert_eq!(a.minus(&b), answer);
}

#[test]
fn test_mul() {
    // (1.0, 2.0, 3.5) times itself, componentwise: (1.0, 4.0, 12.25).
    let a = Vec3::new(65536, 131072, 229376);
    let b = Vec3::new(65536, 131072, 229376);
    let answer = Vec3::new(65536, 262144, 802816);
    assert_eq!(a.mul_vec(&b), answer);
}

#[test]
fn test_div() {
    // (4, 9, 12) over (2, 3, 4): (2, 3, 3).
    let a = Vec3::new(262144, 589824, 786432);
    let b = Vec3::new(131072, 196608, 262144);
    let answer = Vec3::new(131072, 196608, 196608);
    assert_eq!(a.div_vec(&b), answer);
}

#[test]
fn test_add_assign() {
    let mut a = Vec3::new(65536, 131072, 203161);
    let b = Vec3::new(65536, 131072, 203161);
    let answer = Vec3::new(131072, 262144, 406322);
    a = a.plus(&b);
    assert_eq!(a, answer);
}

#[test]
fn test_sub_assign() {
    let mut a = Vec3::new(65536, 131072, 203161);
    let b = Vec3::new(65536, 131072, 203161);
    let answer = Vec3::new(0, 0, 0);
    a = a.minus(&b);
    assert_eq!(a, answer);
}

#[test]
fn test_make_unit_vector() {
    let a = Vec3::new(65536, 131072, 196608);
    let u = Vec3::make_unit_vec(a);
    let len = u.length();
    assert!((len - FX_ONE).abs() <= 2);
}

#[test]
fn test_unit_of_degenerate_vector_is_zero() {
    // The length of the zero vector underflows to zero, and division by a
    // zero scalar yields zero by convention.
    let z = Vec3::new(0, 0, 0);
    assert_eq!(Vec3::make_unit_vec(z), z);
}

#[test]
fn test_vector_algebra_laws_on_values() {
    // Commutativity and associativity of addition.
    let a = Vec3::new(123456, -654321, 777);
    let b = Vec3::new(-98765, 43210, -1);
    let c = Vec3::new(5, 6, 7);
    assert_eq!(a.plus(&b), b.plus(&a));
    assert_eq!(a.plus(&b).plus(&c), a.plus(&b.plus(&c)));
    // The dot product of a vector with its own cross product is almost zero.
    let d = Vec3::dot(a, Vec3::cross(a, b));
    assert!(d.abs() <= 98308);
}

#[test]
fn test_scalar_ops_exact() {
    assert_eq!(fadd(65536, 131072), 196608);
    assert_eq!(fsub(65536, 131072), -65536);
    // 1.5 * 2.5 = 3.75
    assert_eq!(fmul(98304, 163840), 245760);
    // 3.0 / 2.0 = 1.5
    assert_eq!(fdiv(196608, 131072), 98304);
    // Division by zero yields zero by convention.
    assert_eq!(fdiv(196608, 0), 0);
    // Saturation at the scalar range bound.
    assert_eq!(fadd(FX_LIMIT, FX_LIMIT), FX_LIMIT);
    assert_eq!(fmul(FX_LIMIT, FX_LIMIT), FX_LIMIT);
}

#[test]
fn test_scalar_sqrt() {
    assert_eq!(fsqrt(0), 0);
    assert_eq!(fsqrt(-65536), 0);
    assert_eq!(fsqrt(65536), 65536);
    // sqrt(4.0) = 2.0, sqrt(0.25) = 0.5
    assert_eq!(fsqrt(262144), 131072);
    assert_eq!(fsqrt(16384), 32768);
}
