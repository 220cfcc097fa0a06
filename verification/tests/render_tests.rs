//! Camera, integrator, scheduler and end-to-end render tests.

use raytrace::fixed::SCALE;
use raytrace::hittable::HittableList;
use raytrace::material::Material;
use raytrace::ray::Ray;
use raytrace::render::Render;
use raytrace::schedule::chunk_bounds;
use raytrace::sphere::Sphere;
use raytrace::utils::ConstEntropy;
use raytrace::vec3::Vec3;

fn test_camera(image_width: i64, samples: i64, max_depth: i64) -> Render {
    Render::new(
        SCALE,                              // square aspect ratio
        image_width,
        samples,
        max_depth,
        90 * SCALE,                         // vertical field of view, degrees
        Vec3 { x: 0, y: 0, z: 0 },          // eye
        Vec3 { x: 0, y: 0, z: -SCALE },     // target
        Vec3 { x: 0, y: SCALE, z: 0 },      // up
        0,                                  // pinhole: no defocus
        SCALE,                              // focus distance
    )
}

fn one_sphere_world(center_z: i64, radius: i64) -> HittableList<Sphere> {
    let mut world: HittableList<Sphere> = HittableList::new();
    world.add(Sphere::new(Vec3 { x: 0, y: 0, z: center_z },
        radius,
        Material::Lambertian(Vec3 { x: 32768, y: 32768, z: 32768 })));
    world
}

#[test]
fn camera_derivation_basics() {
    let ren = test_camera(2, 1, 1);
    assert_eq!(ren.image_width, 2);
    assert_eq!(ren.image_height, 2);
    assert_eq!(ren.samples_per_pixel, 1);
    assert_eq!(ren.pixel_sample_scale, SCALE);
    assert_eq!(ren.camera_center, Vec3 { x: 0, y: 0, z: 0 });
    // the orthonormal basis of this straight-ahead camera is exact,
    // so the pixel deltas point right and down
    assert!(ren.pixel_del_u.x > 0 && ren.pixel_del_u.y == 0 && ren.pixel_del_u.z == 0);
    assert!(ren.pixel_del_v.y < 0 && ren.pixel_del_v.x == 0 && ren.pixel_del_v.z == 0);
}

#[test]
fn pinhole_rays_start_at_the_camera() {
    let ren = test_camera(2, 1, 1);
    let mut e = ConstEntropy { value: 32768 };
    let r = ren.get_ray(0, 0, &mut e);
    assert_eq!(*r.origin(), Vec3 { x: 0, y: 0, z: 0 });
}

#[test]
fn depth_zero_is_black_whatever_the_scene() {
    let ren = test_camera(2, 1, 0);
    let world = one_sphere_world(-2 * SCALE, SCALE);
    let mut e = ConstEntropy { value: 32768 };
    let black = Vec3 { x: 0, y: 0, z: 0 };
    let down_z = Ray::new(&Vec3 { x: 0, y: 0, z: 0 }, &Vec3 { x: 0, y: 0, z: -SCALE });
    let up_y = Ray::new(&Vec3 { x: 0, y: 0, z: 0 }, &Vec3 { x: 0, y: SCALE, z: 0 });
    assert_eq!(ren.ray_color(down_z, 0, &world, &mut e), black);
    assert_eq!(ren.ray_color(up_y, 0, &world, &mut e), black);
    assert_eq!(ren.ray_color(down_z, -3, &world, &mut e), black);
}

#[test]
fn sky_gradient_is_exact_on_misses() {
    let ren = test_camera(2, 1, 4);
    let world: HittableList<Sphere> = HittableList::new();
    let mut e = ConstEntropy { value: 32768 };
    // straight up: fully the horizon-blue color
    let up = Ray::new(&Vec3 { x: 0, y: 0, z: 0 }, &Vec3 { x: 0, y: SCALE, z: 0 });
    assert_eq!(ren.ray_color(up, 4, &world, &mut e),
        Vec3 { x: 32768, y: 45875, z: SCALE });
    // straight down: fully white
    let down = Ray::new(&Vec3 { x: 0, y: 0, z: 0 }, &Vec3 { x: 0, y: -SCALE, z: 0 });
    assert_eq!(ren.ray_color(down, 4, &world, &mut e),
        Vec3 { x: SCALE, y: SCALE, z: SCALE });
}

#[test]
fn chunks_partition_the_pixel_indices() {
    let v = chunk_bounds(10, 3);
    assert_eq!(v, vec![(0, 3), (3, 6), (6, 9), (9, 10)]);
    assert_eq!(chunk_bounds(8, 4), vec![(0, 4), (4, 8)]);
    assert_eq!(chunk_bounds(0, 5), Vec::<(usize, usize)>::new());
    // every index below n lies in exactly one chunk
    for n in [0usize, 1, 7, 8, 9, 100] {
        for c in [1usize, 3, 8] {
            let chunks = chunk_bounds(n, c);
            let mut seen = vec![0usize; n];
            for (s, t) in chunks {
                assert!(s <= t && t <= n);
                for k in s..t {
                    seen[k] += 1;
                }
            }
            assert!(seen.iter().all(|&cnt| cnt == 1));
        }
    }
}

#[test]
fn two_by_two_lambertian_render_is_deterministic() {
    // one sample per pixel, one bounce, constant entropy 0.5: every
    // primary ray hits the big gray sphere, scatters, and the next
    // bounce exhausts the depth budget, so each sample is the albedo
    // times black -- the whole frame is exactly black, and every
    // pixel identical.
    let ren = test_camera(2, 1, 1);
    let world = one_sphere_world(-2 * SCALE, 63 * SCALE / 10);
    let mut e = ConstEntropy { value: 32768 };
    let pixels = ren.render(&world, &mut e);
    assert_eq!(pixels.len(), 4);
    for p in &pixels {
        assert_eq!(*p, pixels[0]);
    }
    assert_eq!(pixels[0], [0, 0, 0]);
}

#[test]
fn two_by_two_sky_render_shows_the_gradient() {
    // without geometry the four pixels are sky samples
    let ren = test_camera(2, 1, 3);
    let world: HittableList<Sphere> = HittableList::new();
    let mut e = ConstEntropy { value: 32768 };
    let pixels = ren.render(&world, &mut e);
    assert_eq!(pixels.len(), 4);
    for p in &pixels {
        // the gradient blends toward white downward and blue upward,
        // so blue dominates red everywhere; and the blue channel is
        // exactly one, because scaling by one is exact
        assert!(p[2] >= p[1] && p[1] >= p[0]);
        assert_eq!(p[2], 255);
    }
    // the top row sits higher in the gradient, so it is at least as
    // blue-shifted as the bottom row
    assert!(pixels[0][0] <= pixels[2][0]);
    // a second run with the same entropy reproduces the frame
    let mut e2 = ConstEntropy { value: 32768 };
    assert_eq!(ren.render(&world, &mut e2), pixels);
}

#[test]
fn ppm_encoding_is_byte_exact() {
    let pixels = vec![[0u8, 7, 255], [128, 9, 30], [1, 2, 3], [250, 0, 100]];
    let out = raytrace::ppm::ppm_bytes(2, 2, &pixels);
    let expected = b"P3\n2 2\n255\n0 7 255\n128 9 30\n1 2 3\n250 0 100\n";
    assert_eq!(out, expected.to_vec());
}

#[test]
fn ppm_encoding_of_an_empty_frame_is_just_the_header() {
    let out = raytrace::ppm::ppm_bytes(1920, 1080, &Vec::new());
    assert_eq!(out, b"P3\n1920 1080\n255\n".to_vec());
}
