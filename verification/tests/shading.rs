use std::cell::Cell;

use rukako::bool32::Bool32;
use rukako::frame::{next_batch, BufferDimensions, BYTES_PER_PIXEL, INSTANCE_PER_ITER};
use rukako::hittable::HitRecord;
use rukako::material::{EnumMaterial, MaterialKind, Reflection, Refraction, Scatter};
use rukako::path::{Bounce, Path, PathState, Tint, MAX_BOUNCES};
use rukako::ray::Ray;
use rukako::scalar::Scalar;
use rukako::vec3::{Vec3, Vec4};
use rukako::{fullscreen_uv, Invocation, ShaderConstants, NUM_THREADS_X, NUM_THREADS_Y};

fn s(x: f32) -> Scalar {
    Scalar::from_bits(x.to_bits())
}

fn f(x: Scalar) -> f32 {
    f32::from_bits(x.to_bits())
}

fn v(x: f32, y: f32, z: f32) -> Vec3 {
    Vec3::new(s(x), s(y), s(z))
}

fn material(t: u32, data: [f32; 4]) -> EnumMaterial {
    EnumMaterial { data: Vec4 { x: s(data[0]), y: s(data[1]), z: s(data[2]), w: s(data[3]) }, t }
}

fn incoming() -> Ray {
    Ray { origin: v(0.0, 0.0, 0.0), direction: v(0.0, 0.0, -1.0), time: s(0.25) }
}

fn hit(front: bool) -> HitRecord {
    HitRecord {
        position: v(0.0, 0.0, -0.5),
        normal: v(0.0, 0.0, 1.0),
        material: material(0, [0.5, 0.5, 0.5, 0.0]),
        t: s(0.5),
        front_face: Bool32::new(front),
    }
}

fn never_diffuse(_hit: &HitRecord) -> Vec3 {
    panic!("the diffuse kernel was called")
}

fn never_mirror(_ray: &Ray, _hit: &HitRecord, _fuzz: Scalar) -> Reflection {
    panic!("the mirror kernel was called")
}

fn never_refraction(_ray: &Ray, _hit: &HitRecord, _ir: Scalar, _inverse: bool) -> Refraction {
    panic!("the refraction kernel was called")
}

fn never_uniform() -> Scalar {
    panic!("a number was drawn")
}

#[test]
fn kind_is_read_from_the_tag() {
    assert_eq!(material(0, [0.0; 4]).kind(), MaterialKind::Lambertian);
    assert_eq!(material(1, [0.0; 4]).kind(), MaterialKind::Metal);
    assert_eq!(material(2, [0.0; 4]).kind(), MaterialKind::Dielectric);
    assert_eq!(material(3, [0.0; 4]).kind(), MaterialKind::Dielectric);
    assert_eq!(material(u32::MAX, [0.0; 4]).kind(), MaterialKind::Dielectric);
}

#[test]
fn albedo_is_the_first_three_parameters() {
    assert_eq!(material(1, [0.7, 0.6, 0.5, 0.3]).albedo(), v(0.7, 0.6, 0.5));
}

#[test]
fn lambertian_goes_on_in_the_drawn_direction() {
    let m = material(0, [0.4, 0.2, 0.1, 0.0]);
    let mut out = Scatter::default();
    let r = m.lambertian_scatter(&incoming(), &hit(true), &mut out, &|_h: &HitRecord| v(0.3, 0.4, 1.2));
    assert_eq!(r, 1);
    assert_eq!(out.color, v(0.4, 0.2, 0.1));
    assert_eq!(out.ray.origin, v(0.0, 0.0, -0.5));
    assert_eq!(out.ray.direction, v(0.3, 0.4, 1.2));
    assert_eq!(out.ray.time, s(0.25));
}

#[test]
fn lambertian_falls_back_to_the_normal() {
    let m = material(0, [0.4, 0.2, 0.1, 0.0]);
    let mut out = Scatter::default();
    let r = m.lambertian_scatter(&incoming(), &hit(true), &mut out, &|_h: &HitRecord| v(1e-9, -1e-9, 0.0));
    assert_eq!(r, 1);
    assert_eq!(out.ray.direction, v(0.0, 0.0, 1.0));
    let r = m.lambertian_scatter(&incoming(), &hit(true), &mut out, &|_h: &HitRecord| v(1e-9, -1e-9, 1e-7));
    assert_eq!(r, 1);
    assert_eq!(out.ray.direction, v(1e-9, -1e-9, 1e-7));
}

#[test]
fn lambertian_hands_the_hit_to_its_kernel() {
    let m = material(0, [0.4, 0.2, 0.1, 0.0]);
    let mut out = Scatter::default();
    let kernel = |h: &HitRecord| Vec3::new(h.normal.x, h.normal.y, s(f(h.normal.z) + 1.0));
    m.lambertian_scatter(&incoming(), &hit(true), &mut out, &kernel);
    assert_eq!(out.ray.direction, v(0.0, 0.0, 2.0));
}

#[test]
fn metal_scatters_what_points_away_from_the_surface() {
    let m = material(1, [0.7, 0.6, 0.5, 0.3]);
    let mut out = Scatter::default();
    let kernel = |_r: &Ray, _h: &HitRecord, fuzz: Scalar| {
        assert_eq!(fuzz, s(0.3));
        Reflection { direction: v(0.1, 0.0, 1.0), facing: s(1.0) }
    };
    assert_eq!(m.metal_scatter(&incoming(), &hit(true), &mut out, &kernel), 1);
    assert_eq!(out.color, v(0.7, 0.6, 0.5));
    assert_eq!(out.ray.origin, v(0.0, 0.0, -0.5));
    assert_eq!(out.ray.direction, v(0.1, 0.0, 1.0));
    assert_eq!(out.ray.time, s(0.25));
}

#[test]
fn metal_absorbs_what_points_into_the_surface() {
    let m = material(1, [0.7, 0.6, 0.5, 0.3]);
    for facing in [0.0f32, -0.0, -0.2, f32::NAN] {
        let mut out = Scatter::default();
        let kernel = |_r: &Ray, _h: &HitRecord, _fuzz: Scalar| Reflection {
            direction: v(0.1, 0.0, -1.0),
            facing: s(facing),
        };
        assert_eq!(m.metal_scatter(&incoming(), &hit(true), &mut out, &kernel), 0);
        assert_eq!(out, Scatter::default());
    }
}

#[test]
fn dielectric_reflects_where_nothing_is_refracted() {
    let m = material(2, [1.5, 0.0, 0.0, 0.0]);
    let mut out = Scatter::default();
    let kernel = |_r: &Ray, _h: &HitRecord, ir: Scalar, inverse: bool| {
        assert_eq!(ir, s(1.5));
        // the hit is on the back face: the ray leaves the medium
        assert!(!inverse);
        Refraction { bend: s(1.2), reflectance: s(0.0), reflected: v(1.0, 0.0, 0.0), refracted: v(0.0, 1.0, 0.0) }
    };
    assert_eq!(m.dielectric_scatter(&incoming(), &hit(false), &mut out, &kernel, &never_uniform), 1);
    assert_eq!(out.color, v(1.0, 1.0, 1.0));
    assert_eq!(out.ray.direction, v(1.0, 0.0, 0.0));
    assert_eq!(out.ray.origin, v(0.0, 0.0, -0.5));
    assert_eq!(out.ray.time, s(0.25));
}

#[test]
fn dielectric_draws_between_reflection_and_refraction() {
    let m = material(2, [1.5, 0.0, 0.0, 0.0]);
    let kernel = |_r: &Ray, _h: &HitRecord, _ir: Scalar, inverse: bool| {
        // the hit is on the front face: the ray enters the medium
        assert!(inverse);
        Refraction {
            bend: s(0.6),
            reflectance: s(0.25),
            reflected: v(1.0, 0.0, 0.0),
            refracted: v(0.0, 1.0, 0.0),
        }
    };
    for (sample, direction) in [
        (0.0, v(1.0, 0.0, 0.0)),
        (0.2, v(1.0, 0.0, 0.0)),
        (0.25, v(0.0, 1.0, 0.0)),
        (0.9, v(0.0, 1.0, 0.0)),
    ] {
        let drawn = Cell::new(0);
        let uniform = || {
            drawn.set(drawn.get() + 1);
            s(sample)
        };
        let mut out = Scatter::default();
        assert_eq!(m.dielectric_scatter(&incoming(), &hit(true), &mut out, &kernel, &uniform), 1);
        assert_eq!(out.ray.direction, direction, "sample {}", sample);
        assert_eq!(out.color, v(1.0, 1.0, 1.0));
        assert_eq!(drawn.get(), 1);
    }
}

#[test]
fn dielectric_at_the_limit_of_refraction_still_refracts() {
    let at_limit = Refraction { bend: s(1.0), reflectance: s(0.0), reflected: v(1.0, 0.0, 0.0), refracted: v(0.0, 1.0, 0.0) };
    assert!(!at_limit.is_total());
    assert_eq!(at_limit.pick(s(0.5)), v(0.0, 1.0, 0.0));
    let beyond = Refraction { bend: s(1.0000001), ..at_limit };
    assert!(beyond.is_total());
}

#[test]
fn scatter_follows_the_tag() {
    let diffuse = |_h: &HitRecord| v(0.0, 1.0, 1.0);
    let mirror = |_r: &Ray, _h: &HitRecord, _f: Scalar| Reflection { direction: v(2.0, 0.0, 1.0), facing: s(0.5) };
    let refraction = |_r: &Ray, _h: &HitRecord, _i: Scalar, _inverse: bool| Refraction {
        bend: s(0.1),
        reflectance: s(0.5),
        reflected: v(3.0, 0.0, 0.0),
        refracted: v(0.0, 3.0, 0.0),
    };
    let uniform = || s(0.75);
    let mut out = Scatter::default();
    let m = material(0, [0.4, 0.2, 0.1, 0.0]);
    assert_eq!(m.scatter(&incoming(), &hit(true), &mut out, &diffuse, &never_mirror, &never_refraction, &never_uniform), 1);
    assert_eq!(out.ray.direction, v(0.0, 1.0, 1.0));
    assert_eq!(out.color, v(0.4, 0.2, 0.1));
    let m = material(1, [0.7, 0.6, 0.5, 0.0]);
    assert_eq!(m.scatter(&incoming(), &hit(true), &mut out, &never_diffuse, &mirror, &never_refraction, &never_uniform), 1);
    assert_eq!(out.ray.direction, v(2.0, 0.0, 1.0));
    assert_eq!(out.color, v(0.7, 0.6, 0.5));
    let m = material(2, [1.5, 0.0, 0.0, 0.0]);
    assert_eq!(m.scatter(&incoming(), &hit(true), &mut out, &never_diffuse, &never_mirror, &refraction, &uniform), 1);
    assert_eq!(out.ray.direction, v(0.0, 3.0, 0.0));
    assert_eq!(out.color, v(1.0, 1.0, 1.0));
    let m = material(9, [1.5, 0.0, 0.0, 0.0]);
    assert_eq!(m.scatter(&incoming(), &hit(true), &mut out, &never_diffuse, &never_mirror, &refraction, &uniform), 1);
}

#[test]
fn scatter_of_an_absorbing_metal_returns_zero() {
    let mirror = |_r: &Ray, _h: &HitRecord, _f: Scalar| Reflection { direction: v(2.0, 0.0, -1.0), facing: s(-0.5) };
    let mut out = Scatter::default();
    let m = material(1, [0.7, 0.6, 0.5, 0.0]);
    assert_eq!(m.scatter(&incoming(), &hit(true), &mut out, &never_diffuse, &mirror, &never_refraction, &never_uniform), 0);
    assert_eq!(out, Scatter::default());
}

#[test]
fn diffuse_and_dielectric_surfaces_add_no_light() {
    let albedos = [[0.0, 0.0, 0.0], [0.5, 0.5, 0.5], [1.0, 0.3, 0.999], [0.4, 0.2, 0.1]];
    for albedo in albedos {
        let m = material(0, [albedo[0], albedo[1], albedo[2], 0.0]);
        let mut out = Scatter::default();
        m.lambertian_scatter(&incoming(), &hit(true), &mut out, &|_h: &HitRecord| v(0.0, 1.0, 0.0));
        for axis in 0..3 {
            assert!(out.color.axis(axis).le(Scalar::one()));
            assert!(f(out.color.axis(axis)) <= 1.0);
        }
    }
    let refraction = |_r: &Ray, _h: &HitRecord, _i: Scalar, _inverse: bool| Refraction {
        bend: s(0.1),
        reflectance: s(0.5),
        reflected: v(3.0, 0.0, 0.0),
        refracted: v(0.0, 3.0, 0.0),
    };
    let mut out = Scatter::default();
    material(2, [1.5, 0.0, 0.0, 0.0]).dielectric_scatter(&incoming(), &hit(true), &mut out, &refraction, &|| s(0.1));
    for axis in 0..3 {
        assert!(out.color.axis(axis).le(Scalar::one()));
    }
}

#[test]
fn path_that_misses_takes_the_colour_of_the_sky() {
    let mut path = Path::new();
    assert!(path.is_tracing());
    assert_eq!(path.remaining(), 50);
    assert_eq!(path.advance(Bounce::Missed), Tint::Sky);
    assert_eq!(path.state, PathState::Miss);
    assert!(!path.is_tracing());
    assert_eq!(path.remaining(), 0);
    // the sky straight ahead along z: halfway between white and blue
    let direction = [0.0f32, 0.0, 1.0];
    let length = (direction[0] * direction[0] + direction[1] * direction[1] + direction[2] * direction[2]).sqrt();
    let t = 0.5 * (direction[1] / length + 1.0);
    let white = [1.0f32, 1.0, 1.0];
    let blue = [0.5f32, 0.7, 1.0];
    let sky = [
        white[0] + (blue[0] - white[0]) * t,
        white[1] + (blue[1] - white[1]) * t,
        white[2] + (blue[2] - white[2]) * t,
    ];
    assert_eq!(sky[0], 0.75);
    assert!((sky[1] - 0.85).abs() < 1e-6);
    assert_eq!(sky[2], 1.0);
}

#[test]
fn path_that_is_absorbed_keeps_its_colour() {
    let mut path = Path::new();
    assert_eq!(path.advance(Bounce::Scattered), Tint::Attenuation);
    assert_eq!(path.advance(Bounce::Absorbed), Tint::Unchanged);
    assert_eq!(path, Path { state: PathState::HitAbsorbed, bounces: 1 });
}

#[test]
fn path_ends_after_fifty_bounces() {
    assert_eq!(MAX_BOUNCES, 50);
    let mut path = Path::new();
    for i in 0..49 {
        assert_eq!(path.advance(Bounce::Scattered), Tint::Attenuation);
        assert!(path.is_tracing());
        assert_eq!(path.bounces, i + 1);
        assert_eq!(path.remaining(), 49 - i);
    }
    assert_eq!(path.advance(Bounce::Scattered), Tint::Attenuation);
    assert_eq!(path, Path { state: PathState::DepthExceeded, bounces: 50 });
    assert!(!path.is_tracing());
}

#[test]
fn path_that_has_ended_stays_as_it_is() {
    for last in [Bounce::Missed, Bounce::Absorbed] {
        let mut path = Path::new();
        path.advance(Bounce::Scattered);
        path.advance(last);
        let ended = path;
        for bounce in [Bounce::Scattered, Bounce::Absorbed, Bounce::Missed] {
            assert_eq!(path.advance(bounce), Tint::Unchanged);
            assert_eq!(path, ended);
        }
    }
}

#[test]
fn buffer_rows_are_padded_to_the_alignment() {
    assert_eq!(BYTES_PER_PIXEL, 16);
    let d = BufferDimensions::new(1200, 800);
    assert_eq!(d.width, 1200);
    assert_eq!(d.height, 800);
    assert_eq!(d.unpadded_bytes_per_row, 19200);
    assert_eq!(d.padded_bytes_per_row, 19200);
    let d = BufferDimensions::new(1, 1);
    assert_eq!(d.unpadded_bytes_per_row, 16);
    assert_eq!(d.padded_bytes_per_row, 256);
    let d = BufferDimensions::new(17, 3);
    assert_eq!(d.unpadded_bytes_per_row, 272);
    assert_eq!(d.padded_bytes_per_row, 512);
    let d = BufferDimensions::new(16, 3);
    assert_eq!(d.padded_bytes_per_row, 256);
    let d = BufferDimensions::new(0, 0);
    assert_eq!(d.padded_bytes_per_row, 0);
}

#[test]
fn batches_take_all_samples() {
    assert_eq!(INSTANCE_PER_ITER, 64);
    assert_eq!(next_batch(500, 0), 64);
    assert_eq!(next_batch(500, 448), 52);
    assert_eq!(next_batch(500, 500), 0);
    assert_eq!(next_batch(10, 0), 10);
    assert_eq!(next_batch(64, 0), 64);
    let mut sampled = 0;
    let mut passes = 0;
    while sampled < 500 {
        sampled += next_batch(500, sampled);
        passes += 1;
    }
    assert_eq!(sampled, 500);
    assert_eq!(passes, 8);
}

#[test]
fn invocation_outside_the_image_has_nothing_to_do() {
    let c = ShaderConstants { width: 4, height: 3, seed: 0xdead_beef };
    assert_eq!(c.invocation(4, 0), None);
    assert_eq!(c.invocation(0, 3), None);
    assert_eq!(c.invocation(7, 7), None);
    assert_eq!(c.invocation(u32::MAX, 0), None);
}

#[test]
fn invocation_in_the_image_gets_seed_and_place() {
    let c = ShaderConstants { width: 4, height: 3, seed: 0xdead_beef };
    assert_eq!(c.invocation(0, 0), Some(Invocation { seed: 0xdead_beef, index: 8 }));
    assert_eq!(c.invocation(3, 0), Some(Invocation { seed: 0xdead_beef ^ 3, index: 11 }));
    assert_eq!(c.invocation(1, 2), Some(Invocation { seed: 0xdead_beef ^ 9, index: 1 }));
    assert_eq!(c.invocation(3, 2), Some(Invocation { seed: 0xdead_beef ^ 11, index: 3 }));
    assert_eq!(c.pixel_seed(2, 1), 0xdead_beef ^ 6);
    let mut places = Vec::new();
    for y in 0..3 {
        for x in 0..4 {
            places.push(c.invocation(x, y).unwrap().index);
        }
    }
    places.sort();
    assert_eq!(places, (0..12).collect::<Vec<usize>>());
}

#[test]
fn fragment_seed_mixes_in_the_instance() {
    let c = ShaderConstants { width: 1200, height: 800, seed: 0x1234_5678 };
    assert_eq!(c.fragment_seed(0, 0, 0), 0x1234_5678);
    assert_eq!(c.fragment_seed(3, 0, 0), 0x1234_5678 ^ 3072);
    assert_eq!(c.fragment_seed(3, 5, 2), 0x1234_5678 ^ 3072 ^ 2405);
    assert_eq!(c.fragment_seed(63, 1199, 799), 0x1234_5678 ^ 64512 ^ 959_999);
    // 1024 times the instance stops at the greatest word
    assert_eq!(c.fragment_seed(4_194_303, 0, 0), 0x1234_5678 ^ 4_294_966_272);
    assert_eq!(c.fragment_seed(4_194_304, 0, 0), 0x1234_5678 ^ u32::MAX);
    assert_eq!(c.fragment_seed(u32::MAX, 5, 2), 0x1234_5678 ^ u32::MAX ^ 2405);
}

#[test]
fn fullscreen_triangle_has_its_three_corners() {
    assert_eq!(fullscreen_uv(0), (0, 0));
    assert_eq!(fullscreen_uv(1), (2, 0));
    assert_eq!(fullscreen_uv(2), (0, 2));
    assert_eq!(fullscreen_uv(3), (2, 2));
    assert_eq!(fullscreen_uv(4), (0, 0));
    assert_eq!(fullscreen_uv(-1), (2, 2));
    assert_eq!((NUM_THREADS_X, NUM_THREADS_Y), (8, 8));
}

#[test]
fn material_parameters_are_checked_by_kind() {
    assert!(material(0, [0.0, 0.5, 1.0, 0.0]).is_wf());
    assert!(!material(0, [0.0, 0.5, 1.5, 0.0]).is_wf());
    assert!(!material(0, [-0.1, 0.5, 1.0, 0.0]).is_wf());
    assert!(!material(0, [f32::NAN, 0.5, 1.0, 0.0]).is_wf());
    assert!(material(1, [7.0, 7.0, 7.0, 0.0]).is_wf());
    assert!(material(1, [0.7, 0.6, 0.5, 0.3]).is_wf());
    assert!(!material(1, [0.7, 0.6, 0.5, -0.3]).is_wf());
    assert!(material(2, [1.5, 0.0, 0.0, 0.0]).is_wf());
    assert!(!material(2, [0.0, 0.0, 0.0, 0.0]).is_wf());
    assert!(!material(5, [-1.5, 0.0, 0.0, 0.0]).is_wf());
}

#[test]
fn dielectric_takes_the_inverse_index_on_the_front_face() {
    let m = material(2, [1.5, 0.0, 0.0, 0.0]);
    for front in [true, false] {
        let seen = Cell::new(None);
        let kernel = |_r: &Ray, h: &HitRecord, ir: Scalar, inverse: bool| {
            assert_eq!(h.front_face.get(), front);
            seen.set(Some((f(ir), inverse)));
            Refraction { bend: s(2.0), reflectance: s(0.0), reflected: v(1.0, 0.0, 0.0), refracted: v(0.0, 1.0, 0.0) }
        };
        let mut out = Scatter::default();
        assert_eq!(m.dielectric_scatter(&incoming(), &hit(front), &mut out, &kernel, &never_uniform), 1);
        assert_eq!(seen.get(), Some((1.5, front)));
    }
}
