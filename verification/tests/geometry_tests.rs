//! Intersection, interval, material and color tests.

use raytrace::color::get_pixel;
use raytrace::fixed::SCALE;
use raytrace::hittable::{HitRecord, Hittable, HittableList};
use raytrace::interval::{Interval, Span};
use raytrace::material::Material;
use raytrace::ray::Ray;
use raytrace::sphere::Sphere;
use raytrace::vec3::Vec3;

fn gray() -> Material {
    Material::Lambertian(Vec3 { x: 32768, y: 32768, z: 32768 })
}

fn axial_ray() -> Ray {
    Ray::new(&Vec3 { x: 0, y: 0, z: 0 }, &Vec3 { x: 0, y: 0, z: -SCALE })
}

fn full_span() -> Span {
    Span { start: 66, end: i64::MAX }
}

#[test]
fn head_on_hit_at_distance_minus_radius() {
    // a ray aimed at the center from distance 2 of a unit sphere
    // hits at t = 2 - 1 = 1 exactly
    let s = Sphere::new(Vec3 { x: 0, y: 0, z: -2 * SCALE }, SCALE, gray());
    let r = axial_ray();
    let mut rec = HitRecord::new();
    let hit = s.hit(&r, full_span(), &mut rec);
    assert!(hit.is_some());
    assert_eq!(rec.t, SCALE);
    assert_eq!(rec.p, Vec3 { x: 0, y: 0, z: -SCALE });
    // the normal is parallel to (hit point - center) and unit length
    assert_eq!(rec.normal, Vec3 { x: 0, y: 0, z: SCALE });
    assert!(rec.front_face);
}

#[test]
fn wide_ray_misses() {
    // closest approach 3 exceeds the radius 1
    let s = Sphere::new(Vec3 { x: 3 * SCALE, y: 0, z: -2 * SCALE }, SCALE, gray());
    let mut rec = HitRecord::new();
    assert!(s.hit(&axial_ray(), full_span(), &mut rec).is_none());
}

#[test]
fn span_membership_is_strict() {
    let sp = Span { start: 0, end: 10 };
    assert!(!sp.surrounds(0));
    assert!(sp.surrounds(5));
    assert!(!sp.surrounds(10));
    assert_eq!(sp.clamp(-5), 0);
    assert_eq!(sp.clamp(7), 7);
    assert_eq!(sp.clamp(15), 10);
    // a hit exactly on the span end is rejected
    let s = Sphere::new(Vec3 { x: 0, y: 0, z: -2 * SCALE }, SCALE, gray());
    let mut rec = HitRecord::new();
    assert!(s.hit(&axial_ray(), Span { start: 66, end: SCALE }, &mut rec).is_none());
    assert!(s.hit(&axial_ray(), Span { start: 66, end: SCALE + 1 }, &mut rec).is_some());
}

#[test]
fn nearest_sphere_wins() {
    let mut world: HittableList<Sphere> = HittableList::new();
    world.add(Sphere::new(Vec3 { x: 0, y: 0, z: -5 * SCALE }, SCALE,
        Material::Lambertian(Vec3 { x: SCALE, y: 0, z: 0 })));
    world.add(Sphere::new(Vec3 { x: 0, y: 0, z: -3 * SCALE }, SCALE,
        Material::Lambertian(Vec3 { x: 0, y: SCALE, z: 0 })));
    assert_eq!(world.objects.len(), 2);
    let mut rec = HitRecord::new();
    let hit = world.hit(&axial_ray(), full_span(), &mut rec);
    // the nearer sphere, second in storage order, is the hit
    assert_eq!(rec.t, 2 * SCALE);
    match hit {
        Some(Material::Lambertian(albedo)) => {
            assert_eq!(albedo, Vec3 { x: 0, y: SCALE, z: 0 });
        },
        _ => panic!("expected the near green sphere"),
    }
}

#[test]
fn negative_radius_is_clamped() {
    let s = Sphere::new(Vec3 { x: 0, y: 0, z: 0 }, -5, gray());
    let mut rec = HitRecord::new();
    // a zero-radius sphere never hits
    assert!(s.hit(&axial_ray(), full_span(), &mut rec).is_none());
}

#[test]
fn gamma_round_trip_white_and_black() {
    // (1,1,1) -> sqrt -> (1,1,1) -> clamp 0.999 -> 255 per channel
    let white = Vec3 { x: SCALE, y: SCALE, z: SCALE };
    assert_eq!(get_pixel(white), [255, 255, 255]);
    // (0,0,0) stays black
    assert_eq!(get_pixel(Vec3 { x: 0, y: 0, z: 0 }), [0, 0, 0]);
    // a negative channel maps to zero before the square root
    assert_eq!(get_pixel(Vec3 { x: -SCALE, y: 0, z: SCALE }), [0, 0, 255]);
}

#[test]
fn quantization_of_a_quarter() {
    // linear 1/4 -> gamma 1/2 -> floor(256 * 0.5) = 128
    assert_eq!(get_pixel(Vec3 { x: 16384, y: 16384, z: 16384 }), [128, 128, 128]);
}

#[test]
fn schlick_boundary_decides_reflection() {
    // at normal incidence the reflectance is exactly r0; for glass of
    // index 1.5 seen from outside, r0 = 0.04 = 2621/65536.  a draw
    // just below r0 reflects, a draw at r0 refracts.
    let glass = Material::Dielectric(98304);
    let r_in = axial_ray();
    let rec = HitRecord {
        p: Vec3 { x: 0, y: 0, z: -SCALE },
        normal: Vec3 { x: 0, y: 0, z: SCALE },
        t: SCALE,
        front_face: true,
    };
    let uvec = Vec3 { x: 0, y: 0, z: 0 };

    let mut att = Vec3 { x: 0, y: 0, z: 0 };
    let mut scattered = Ray::empty();
    assert!(glass.scatter_from(&r_in, &rec, uvec, 2620, &mut att, &mut scattered));
    assert_eq!(att, Vec3 { x: SCALE, y: SCALE, z: SCALE });
    assert_eq!(*scattered.direction(), Vec3 { x: 0, y: 0, z: SCALE });

    assert!(glass.scatter_from(&r_in, &rec, uvec, 2621, &mut att, &mut scattered));
    assert_eq!(*scattered.direction(), Vec3 { x: 0, y: 0, z: -SCALE });
}

#[test]
fn lambertian_falls_back_to_normal_on_cancellation() {
    let mat = gray();
    let rec = HitRecord {
        p: Vec3 { x: 0, y: 0, z: -SCALE },
        normal: Vec3 { x: 0, y: 0, z: SCALE },
        t: SCALE,
        front_face: true,
    };
    // a unit sample exactly opposite the normal cancels it
    let uvec = Vec3 { x: 0, y: 0, z: -SCALE };
    let mut att = Vec3 { x: 0, y: 0, z: 0 };
    let mut scattered = Ray::empty();
    assert!(gray().scatter_from(&axial_ray(), &rec, uvec, 0, &mut att, &mut scattered));
    assert_eq!(*scattered.direction(), rec.normal);
    assert_eq!(*scattered.origin(), rec.p);
    match mat {
        Material::Lambertian(albedo) => assert_eq!(att, albedo),
        _ => unreachable!(),
    }
}

#[test]
fn fuzzed_metal_below_surface_is_absorbed() {
    let metal = Material::Metal(Vec3 { x: SCALE, y: SCALE, z: SCALE }, SCALE);
    let rec = HitRecord {
        p: Vec3 { x: 0, y: 0, z: -SCALE },
        normal: Vec3 { x: 0, y: 0, z: SCALE },
        t: SCALE,
        front_face: true,
    };
    // reflection of the axial ray is (0,0,1); a full-fuzz sample of
    // (0,0,-1) cancels it to zero, which grazes and is absorbed
    let uvec = Vec3 { x: 0, y: 0, z: -SCALE };
    let mut att = Vec3 { x: 0, y: 0, z: 0 };
    let mut scattered = Ray::empty();
    assert!(!metal.scatter_from(&axial_ray(), &rec, uvec, 0, &mut att, &mut scattered));
    // an upward sample keeps it above the surface
    let up = Vec3 { x: 0, y: 0, z: SCALE };
    assert!(metal.scatter_from(&axial_ray(), &rec, up, 0, &mut att, &mut scattered));
    assert_eq!(*scattered.direction(), Vec3 { x: 0, y: 0, z: 2 * SCALE });
}
