//! Vector arithmetic, sampling and the reflect law.

use raytrace::fixed::SCALE;
use raytrace::utils::{degress_to_radians, random_float, ConstEntropy, ThreadEntropy, FP_PI};
use raytrace::vec3::{empty, random, random_in_unit_disk, random_unit_vector, Vec3};

#[test]
fn reflect_law() {
    // reflect((1,-1,0), (0,1,0)) = (1,1,0)
    let v = Vec3 { x: SCALE, y: -SCALE, z: 0 };
    let n = Vec3 { x: 0, y: SCALE, z: 0 };
    assert_eq!(v.reflect(&n), Vec3 { x: SCALE, y: SCALE, z: 0 });
}

#[test]
fn dot_cross_and_lengths() {
    let a = Vec3 { x: 3 * SCALE, y: 4 * SCALE, z: 0 };
    let b = Vec3 { x: 0, y: 0, z: 2 * SCALE };
    assert_eq!(a.dot(&b), 0);
    assert_eq!(a.len_sqr(), 25 * SCALE);
    assert_eq!(a.length(), 5 * SCALE);
    // cross of the x and y axes is the z axis
    let x = Vec3 { x: SCALE, y: 0, z: 0 };
    let y = Vec3 { x: 0, y: SCALE, z: 0 };
    assert_eq!(x.cross(&y), Vec3 { x: 0, y: 0, z: SCALE });
}

#[test]
fn unit_of_a_3_4_0_vector() {
    let a = Vec3 { x: 3 * SCALE, y: 4 * SCALE, z: 0 };
    // 3/5 and 4/5, truncated toward zero at the last binary place
    assert_eq!(a.unit(), Vec3 { x: 39321, y: 52428, z: 0 });
}

#[test]
fn componentwise_ops() {
    let a = Vec3 { x: SCALE, y: 2 * SCALE, z: -SCALE };
    let b = Vec3 { x: SCALE, y: SCALE, z: 2 * SCALE };
    assert_eq!(a.add(&b), Vec3 { x: 2 * SCALE, y: 3 * SCALE, z: SCALE });
    assert_eq!(a.sub(&b), Vec3 { x: 0, y: SCALE, z: -3 * SCALE });
    assert_eq!(a.mul(&b), Vec3 { x: SCALE, y: 2 * SCALE, z: -2 * SCALE });
    assert_eq!(a.mul_f(32768), Vec3 { x: 32768, y: SCALE, z: -32768 });
    assert_eq!(a.div_f(2 * SCALE), Vec3 { x: 32768, y: SCALE, z: -32768 });
    assert_eq!(a.neg(), Vec3 { x: -SCALE, y: -2 * SCALE, z: SCALE });
    let mut c = empty();
    c.add_assign(a);
    assert_eq!(c, a);
}

#[test]
fn near_zero_means_exactly_zero() {
    assert!(Vec3 { x: 0, y: 0, z: 0 }.near_zero());
    assert!(!Vec3 { x: 1, y: 0, z: 0 }.near_zero());
}

#[test]
fn refract_straight_through() {
    let v = Vec3 { x: 0, y: 0, z: -SCALE };
    let n = Vec3 { x: 0, y: 0, z: SCALE };
    // at normal incidence with ratio one the ray passes unchanged
    assert_eq!(v.refract(&n, SCALE), v);
}

#[test]
fn degrees_to_radians_exact_at_180() {
    assert_eq!(degress_to_radians(180 * SCALE), FP_PI);
    assert_eq!(degress_to_radians(0), 0);
}

#[test]
fn thread_entropy_stays_in_unit_range() {
    // would fail if the generator wrapper handed anything outside [0, 1)
    let mut e = ThreadEntropy {};
    for _ in 0..200 {
        let u = random_float(&mut e);
        assert!(0 <= u && u < SCALE);
    }
    let v = random(&mut e);
    assert!(0 <= v.x && v.x < SCALE);
    assert!(0 <= v.y && v.y < SCALE);
    assert!(0 <= v.z && v.z < SCALE);
}

#[test]
fn unit_disk_samples_lie_in_the_disk() {
    let mut e = ThreadEntropy {};
    for _ in 0..50 {
        let p = random_in_unit_disk(&mut e);
        assert_eq!(p.z, 0);
        assert!(p.len_sqr() < SCALE);
    }
}

#[test]
fn constant_entropy_unit_vector_falls_back() {
    // every draw of 0.5 yields the zero vector, which is rejected, so
    // the sampler lands on its fixed fallback direction
    let mut e = ConstEntropy { value: 32768 };
    assert_eq!(random_unit_vector(&mut e), Vec3 { x: 0, y: 0, z: SCALE });
}

#[test]
fn thread_entropy_unit_vectors_are_roughly_unit() {
    let mut e = ThreadEntropy {};
    for _ in 0..50 {
        let u = random_unit_vector(&mut e);
        let ls = u.len_sqr();
        // normalization error stays well below an eighth
        assert!(ls > SCALE - 8192 && ls < SCALE + 8192, "len_sqr {ls}");
    }
}

#[test]
fn trig_polynomials_at_one_half_radian() {
    // sin 0.5 = 0.479..., cos 0.5 = 0.877..., tan 0.5 = 0.546...,
    // each the exact value of its fixed-point polynomial
    assert_eq!(raytrace::utils::fp_sin(32768), 31420);
    assert_eq!(raytrace::utils::fp_cos(32768), 57514);
    assert_eq!(raytrace::utils::fp_tan(32768), 35802);
    assert_eq!(raytrace::utils::fp_sin(0), 0);
    assert_eq!(raytrace::utils::fp_cos(0), SCALE);
    assert_eq!(raytrace::utils::fp_tan(0), 0);
    // a right angle in degrees lands just below pi/2
    assert_eq!(degress_to_radians(90 * SCALE), 102943);
}

#[test]
fn lerp_at_one_half_is_the_midpoint() {
    let mut e = ConstEntropy { value: 32768 };
    assert_eq!(raytrace::utils::random_min_max(0, 2 * SCALE, &mut e), SCALE);
    assert_eq!(raytrace::utils::random_min_max(-SCALE, SCALE, &mut e), 0);
    let v = raytrace::vec3::random_min_max(2 * SCALE, 4 * SCALE, &mut e);
    assert_eq!(v, Vec3 { x: 3 * SCALE, y: 3 * SCALE, z: 3 * SCALE });
}
