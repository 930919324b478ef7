use rand::rngs::StdRng;
use rand::{Rng, SeedableRng};
use rukako::aabb::{surrounding_box, Slab, Slabs, AABB};
use rukako::bvh::{BVHNode, Child, BVH};
use rukako::hittable::HitRecord;
use rukako::pod::bvh::{create_bvh, BVHChildInner, BVHNodeInner, BVHNodePod};
use rukako::pod::{EnumMaterialPod, SpherePod};
use rukako::ray::Ray;
use rukako::scalar::Scalar;
use rukako::sphere::{Crossing, Sphere, Touch};
use rukako::vec3::{UVec4, Vec3};

fn s(x: f32) -> Scalar {
    Scalar::from_bits(x.to_bits())
}

fn f(x: Scalar) -> f32 {
    f32::from_bits(x.to_bits())
}

fn v(x: f32, y: f32, z: f32) -> Vec3 {
    Vec3::new(s(x), s(y), s(z))
}

fn a(v: Vec3) -> [f32; 3] {
    [f(v.x), f(v.y), f(v.z)]
}

fn dot(p: [f32; 3], q: [f32; 3]) -> f32 {
    p[0] * q[0] + p[1] * q[1] + p[2] * q[2]
}

fn ray(origin: [f32; 3], direction: [f32; 3]) -> Ray {
    Ray {
        origin: v(origin[0], origin[1], origin[2]),
        direction: v(direction[0], direction[1], direction[2]),
        time: s(0.0),
    }
}

fn slab(lo: f32, hi: f32, origin: f32, direction: f32) -> Slab {
    let inv_d = 1.0 / direction;
    Slab { inv_d: s(inv_d), t0: s((lo - origin) * inv_d), t1: s((hi - origin) * inv_d) }
}

fn slabs(aabb: &AABB, ray: &Ray) -> Slabs {
    let lo = a(aabb.minimum);
    let hi = a(aabb.maximum);
    let o = a(ray.origin);
    let d = a(ray.direction);
    Slabs {
        x: slab(lo[0], hi[0], o[0], d[0]),
        y: slab(lo[1], hi[1], o[1], d[1]),
        z: slab(lo[2], hi[2], o[2], d[2]),
    }
}

fn touch(sphere: &Sphere, ray: &Ray, t: f32) -> Touch {
    let o = a(ray.origin);
    let d = a(ray.direction);
    let c = a(sphere.center);
    let r = f(sphere.radius);
    let p = [o[0] + t * d[0], o[1] + t * d[1], o[2] + t * d[2]];
    let n = [(p[0] - c[0]) / r, (p[1] - c[1]) / r, (p[2] - c[2]) / r];
    Touch {
        t: s(t),
        position: v(p[0], p[1], p[2]),
        outward_normal: v(n[0], n[1], n[2]),
        facing: s(dot(d, n)),
    }
}

fn crossing(sphere: &Sphere, ray: &Ray) -> Crossing {
    let o = a(ray.origin);
    let d = a(ray.direction);
    let c = a(sphere.center);
    let r = f(sphere.radius);
    let oc = [o[0] - c[0], o[1] - c[1], o[2] - c[2]];
    let aa = dot(d, d);
    let half_b = dot(oc, d);
    let cc = dot(oc, oc) - r * r;
    let discriminant = half_b * half_b - aa * cc;
    let sqrtd = discriminant.sqrt();
    Crossing {
        discriminant: s(discriminant),
        near: touch(sphere, ray, (-half_b - sqrtd) / aa),
        far: touch(sphere, ray, (-half_b + sqrtd) / aa),
    }
}

fn bounding_box(sphere: &SpherePod, _time0: Scalar, _time1: Scalar) -> AABB {
    let c = a(sphere.center());
    let r = f(sphere.radius());
    AABB { minimum: v(c[0] - r, c[1] - r, c[2] - r), maximum: v(c[0] + r, c[1] + r, c[2] + r) }
}

fn scene(n: usize, seed: u64) -> Vec<SpherePod> {
    let mut rng = StdRng::seed_from_u64(seed);
    let mut world = Vec::new();
    for i in 0..n {
        let center = v(
            rng.gen_range(-10.0f32..10.0),
            rng.gen_range(-10.0f32..10.0),
            rng.gen_range(-10.0f32..10.0),
        );
        let radius = rng.gen_range(0.1f32..1.5);
        // each sphere has a material of its own, so that a record tells which one was hit
        let material = EnumMaterialPod::new_metal(v(i as f32, 0.5, 0.25), s(0.0));
        world.push(SpherePod::new(center, s(radius), material));
    }
    world
}

fn build(world: &mut Vec<SpherePod>, seed: u64) -> Vec<BVHNode> {
    let mut rng = StdRng::seed_from_u64(seed);
    let pods = create_bvh(world, s(0.0), s(1.0), &mut rng, &bounding_box);
    pods.iter().map(|p| p.node()).collect()
}

fn spheres(world: &[SpherePod]) -> Vec<Sphere> {
    world.iter().map(|p| p.sphere()).collect()
}

fn brute_force(world: &[Sphere], r: &Ray, t_min: f32, t_max: f32) -> Option<HitRecord> {
    let mut record = HitRecord::default();
    let mut closest = s(t_max);
    let mut hit = false;
    for sphere in world {
        let mut candidate = HitRecord::default();
        if sphere.hit(r, s(t_min), closest, &mut candidate, &crossing).get()
            && (!hit || candidate.t.lt(closest))
        {
            record = candidate;
            closest = candidate.t;
            hit = true;
        }
    }
    if hit {
        Some(record)
    } else {
        None
    }
}

fn traverse(nodes: &[BVHNode], world: &[Sphere], r: &Ray, t_min: f32, t_max: f32) -> Option<HitRecord> {
    let mut record = HitRecord::default();
    let bvh = BVH { nodes };
    if bvh.hit(r, s(t_min), s(t_max), &mut record, world, &slabs, &crossing).get() {
        Some(record)
    } else {
        assert_eq!(record, HitRecord::default());
        None
    }
}

fn leaves_below(nodes: &[BVHNode], i: usize, out: &mut Vec<usize>) {
    match nodes[i].kind() {
        Child::One(y) => leaves_below(nodes, y as usize, out),
        Child::Two(y, z) => {
            leaves_below(nodes, y as usize, out);
            leaves_below(nodes, z as usize, out);
        }
        Child::World(w) => out.push(w as usize),
    }
}

fn height(nodes: &[BVHNode], i: usize) -> usize {
    match nodes[i].kind() {
        Child::One(y) => 1 + height(nodes, y as usize),
        Child::Two(y, z) => 1 + height(nodes, y as usize).max(height(nodes, z as usize)),
        Child::World(_) => 1,
    }
}

fn sorted_key(x: &SpherePod) -> [u32; 8] {
    let c = x.center();
    let m = x.sphere().material;
    [
        c.x.to_bits(),
        c.y.to_bits(),
        c.z.to_bits(),
        x.radius().to_bits(),
        m.data.x.to_bits(),
        m.data.y.to_bits(),
        m.data.z.to_bits(),
        m.t,
    ]
}

#[test]
fn empty_world_has_no_nodes() {
    let mut world: Vec<SpherePod> = Vec::new();
    let mut rng = StdRng::seed_from_u64(1);
    let pods = create_bvh(&mut world, s(0.0), s(1.0), &mut rng, &bounding_box);
    assert!(pods.is_empty());
    assert!(world.is_empty());
}

#[test]
fn one_sphere_makes_the_record_of_one_leaf() {
    let grey = EnumMaterialPod::new_lambertian(v(0.5, 0.5, 0.5));
    let mut world = vec![SpherePod::new(v(0.0, 0.0, -1.0), s(0.5), grey)];
    let before = world[0].words();
    let mut rng = StdRng::seed_from_u64(0);
    let pods = create_bvh(&mut world, s(0.0), s(1.0), &mut rng, &bounding_box);
    assert_eq!(pods.len(), 1);
    let expected: [u32; 12] = [
        (-0.5f32).to_bits(),
        (-0.5f32).to_bits(),
        (-1.5f32).to_bits(),
        0,
        0.5f32.to_bits(),
        0.5f32.to_bits(),
        (-0.5f32).to_bits(),
        0,
        2,
        0,
        0,
        0,
    ];
    assert_eq!(pods[0].words(), expected);
    assert_eq!(world.len(), 1);
    assert_eq!(world[0].words(), before);
}

#[test]
fn built_nodes_write_their_links_in_one_way() {
    for n in [1usize, 2, 3, 10, 65] {
        let mut world = scene(n, 111);
        let nodes = build(&mut world, 112);
        for node in nodes.iter() {
            let c = node.child;
            assert!((c.x == 1 && c.w == 0) || (c.x == 2 && c.y == 0 && c.z == 0));
        }
    }
}

#[test]
fn one_primitive_makes_one_leaf() {
    let mut world = scene(1, 3);
    let before = world[0];
    let nodes = build(&mut world, 4);
    assert_eq!(nodes.len(), 1);
    assert_eq!(nodes[0].kind(), Child::World(0));
    assert_eq!(nodes[0].child, UVec4 { x: 2, y: 0, z: 0, w: 0 });
    assert_eq!(nodes[0].aabb, bounding_box(&before, s(0.0), s(1.0)));
    assert_eq!(sorted_key(&world[0]), sorted_key(&before));
}

#[test]
fn two_primitives_make_a_root_and_two_leaves() {
    let mut world = scene(2, 5);
    let nodes = build(&mut world, 6);
    assert_eq!(nodes.len(), 3);
    assert_eq!(nodes[0].kind(), Child::Two(1, 2));
    assert_eq!(nodes[1].kind(), Child::World(0));
    assert_eq!(nodes[2].kind(), Child::World(1));
    assert_eq!(nodes[0].aabb, surrounding_box(nodes[1].aabb, nodes[2].aabb));
}

#[test]
fn builder_rearranges_and_loses_nothing() {
    for n in [1usize, 2, 3, 7, 16, 33, 100] {
        let mut world = scene(n, n as u64);
        let mut before: Vec<[u32; 8]> = world.iter().map(sorted_key).collect();
        let _ = build(&mut world, 99);
        let mut after: Vec<[u32; 8]> = world.iter().map(sorted_key).collect();
        before.sort();
        after.sort();
        assert_eq!(before, after);
    }
}

#[test]
fn builder_links_forward_and_covers_every_primitive_once() {
    for n in [1usize, 2, 3, 5, 8, 13, 64, 100, 257] {
        let mut world = scene(n, 7 + n as u64);
        let nodes = build(&mut world, 11);
        assert_eq!(nodes.len(), 2 * n - 1);
        for (i, node) in nodes.iter().enumerate() {
            match node.kind() {
                Child::One(_) => panic!("a node with one child"),
                Child::Two(y, z) => {
                    assert_eq!(y as usize, i + 1);
                    assert!((z as usize) > y as usize && (z as usize) < nodes.len());
                    assert_eq!(node.child.x, 1);
                    assert_eq!(node.child.w, 0);
                }
                Child::World(w) => {
                    assert!((w as usize) < n);
                    assert_eq!(node.child, UVec4 { x: 2, y: 0, z: 0, w });
                }
            }
        }
        let mut leaves = Vec::new();
        leaves_below(&nodes, 0, &mut leaves);
        assert_eq!(leaves, (0..n).collect::<Vec<usize>>());
    }
}

#[test]
fn builder_boxes_surround_their_children() {
    let mut world = scene(50, 21);
    let nodes = build(&mut world, 22);
    for node in nodes.iter() {
        match node.kind() {
            Child::One(_) => panic!("a node with one child"),
            Child::Two(y, z) => {
                let merged = surrounding_box(nodes[y as usize].aabb, nodes[z as usize].aabb);
                assert_eq!(node.aabb, merged);
            }
            Child::World(w) => {
                assert_eq!(node.aabb, bounding_box(&world[w as usize], s(0.0), s(1.0)));
            }
        }
    }
    // the root holds every sphere
    let lo = a(nodes[0].aabb.minimum);
    let hi = a(nodes[0].aabb.maximum);
    for sphere in world.iter() {
        let c = a(sphere.center());
        let r = f(sphere.radius());
        for axis in 0..3 {
            assert!(lo[axis] <= c[axis] - r && c[axis] + r <= hi[axis]);
        }
    }
}

#[test]
fn builder_splits_in_the_middle_along_an_axis() {
    for n in [2usize, 3, 9, 40, 100] {
        let mut world = scene(n, 31 + n as u64);
        let nodes = build(&mut world, 32);
        for node in nodes.iter() {
            if let Child::Two(y, z) = node.kind() {
                let mut first = Vec::new();
                let mut second = Vec::new();
                leaves_below(&nodes, y as usize, &mut first);
                leaves_below(&nodes, z as usize, &mut second);
                let l = first[0];
                let m = second[0];
                let r = second[second.len() - 1] + 1;
                assert_eq!(first, (l..m).collect::<Vec<usize>>());
                assert_eq!(second, (m..r).collect::<Vec<usize>>());
                assert_eq!(m, (l + r) / 2);
                assert_eq!(z as usize, y as usize + 2 * first.len() - 1);
                let key = |w: usize, axis: usize| {
                    bounding_box(&world[w], s(0.0), s(1.0)).minimum.axis(axis).ordered_key()
                };
                let apart = (0..3).any(|axis| {
                    let greatest = first.iter().map(|&w| key(w, axis)).max().unwrap();
                    let least = second.iter().map(|&w| key(w, axis)).min().unwrap();
                    greatest <= least
                });
                assert!(apart);
            }
        }
    }
}

#[test]
fn builder_keeps_the_hierarchy_low() {
    for (n, levels) in [(1usize, 1usize), (2, 2), (3, 3), (4, 3), (5, 4), (8, 4), (9, 5), (1000, 11)] {
        let mut world = scene(n, 41);
        let nodes = build(&mut world, 42);
        assert_eq!(height(&nodes, 0), levels, "{} primitives", n);
    }
}

#[test]
fn traversal_finds_what_the_brute_force_search_finds() {
    let mut world = scene(120, 51);
    let nodes = build(&mut world, 52);
    let world = spheres(&world);
    let mut rng = StdRng::seed_from_u64(53);
    let mut hits = 0;
    for _ in 0..2000 {
        let origin = [
            rng.gen_range(-15.0f32..15.0),
            rng.gen_range(-15.0f32..15.0),
            rng.gen_range(-15.0f32..15.0),
        ];
        let direction = [
            rng.gen_range(-1.0f32..1.0),
            rng.gen_range(-1.0f32..1.0),
            rng.gen_range(-1.0f32..1.0),
        ];
        let r = ray(origin, direction);
        let expected = brute_force(&world, &r, 0.001, f32::INFINITY);
        let found = traverse(&nodes, &world, &r, 0.001, f32::INFINITY);
        assert_eq!(found.is_some(), expected.is_some());
        if let (Some(x), Some(y)) = (found, expected) {
            hits += 1;
            assert_eq!(x.t, y.t);
            assert_eq!(x.material, y.material);
            assert_eq!(x, y);
        }
    }
    assert!(hits > 100);
}

#[test]
fn traversal_agrees_along_the_axes_and_in_short_windows() {
    let mut world = scene(60, 61);
    let nodes = build(&mut world, 62);
    let world = spheres(&world);
    let directions = [
        [1.0, 0.0, 0.0],
        [-1.0, 0.0, 0.0],
        [0.0, 1.0, 0.0],
        [0.0, -1.0, 0.0],
        [0.0, 0.0, 1.0],
        [0.0, 0.0, -1.0],
    ];
    for sphere in world.iter() {
        let c = a(sphere.center);
        for d in directions {
            let origin = [c[0] - 20.0 * d[0], c[1] - 20.0 * d[1], c[2] - 20.0 * d[2]];
            let r = ray(origin, d);
            for t_max in [f32::INFINITY, 25.0, 19.0, 5.0] {
                let expected = brute_force(&world, &r, 0.001, t_max);
                let found = traverse(&nodes, &world, &r, 0.001, t_max);
                assert_eq!(found, expected);
            }
            assert!(traverse(&nodes, &world, &r, 0.001, f32::INFINITY).is_some());
        }
    }
}

#[test]
fn traversal_of_one_sphere_straight_ahead() {
    let grey = EnumMaterialPod::new_lambertian(v(0.5, 0.5, 0.5));
    let mut world = vec![SpherePod::new(v(0.0, 0.0, -1.0), s(0.5), grey)];
    let nodes = build(&mut world, 71);
    let world = spheres(&world);
    let r = ray([0.0, 0.0, 0.0], [0.0, 0.0, -1.0]);
    let record = traverse(&nodes, &world, &r, 0.001, f32::INFINITY).unwrap();
    assert_eq!(f(record.t), 0.5);
    assert_eq!(a(record.position), [0.0, 0.0, -0.5]);
    assert_eq!(a(record.normal), [0.0, 0.0, 1.0]);
    assert!(record.front_face.get());
    assert_eq!(record.material, grey.material());
}

#[test]
fn traversal_of_one_sphere_behind_the_ray_misses() {
    let grey = EnumMaterialPod::new_lambertian(v(0.5, 0.5, 0.5));
    let mut world = vec![SpherePod::new(v(0.0, 0.0, -1.0), s(0.5), grey)];
    let nodes = build(&mut world, 72);
    let world = spheres(&world);
    let r = ray([0.0, 0.0, 0.0], [0.0, 0.0, 1.0]);
    assert_eq!(traverse(&nodes, &world, &r, 0.001, f32::INFINITY), None);
}

#[test]
fn traversal_follows_a_node_with_one_child() {
    let grey = EnumMaterialPod::new_lambertian(v(0.5, 0.5, 0.5));
    let sphere = SpherePod::new(v(0.0, 0.0, -1.0), s(0.5), grey);
    let aabb = bounding_box(&sphere, s(0.0), s(1.0));
    let nodes = vec![
        BVHNode { aabb, child: UVec4 { x: 0, y: 1, z: 0, w: 0 } },
        BVHNode { aabb, child: UVec4 { x: 7, y: 0, z: 0, w: 0 } },
    ];
    assert_eq!(nodes[0].kind(), Child::One(1));
    assert_eq!(nodes[1].kind(), Child::World(0));
    let world = vec![sphere.sphere()];
    let r = ray([0.0, 0.0, 0.0], [0.0, 0.0, -1.0]);
    let record = traverse(&nodes, &world, &r, 0.001, f32::INFINITY).unwrap();
    assert_eq!(f(record.t), 0.5);
}

#[test]
fn node_record_lays_out_tag_and_links() {
    let aabb = AABB { minimum: v(1.0, 2.0, 3.0), maximum: v(4.0, 5.0, 6.0) };
    let one: BVHNodePod = BVHNodeInner { aabb, child: BVHChildInner::One(5) }.into();
    let two: BVHNodePod = BVHNodeInner { aabb, child: BVHChildInner::Two(6, 9) }.into();
    let leaf: BVHNodePod = BVHNodeInner { aabb, child: BVHChildInner::World(12) }.into();
    assert_eq!(one.node().child, UVec4 { x: 0, y: 5, z: 0, w: 0 });
    assert_eq!(two.node().child, UVec4 { x: 1, y: 6, z: 9, w: 0 });
    assert_eq!(leaf.node().child, UVec4 { x: 2, y: 0, z: 0, w: 12 });
    assert_eq!(one.node().aabb, aabb);
    assert_eq!(one.node().kind(), Child::One(5));
    assert_eq!(two.node().kind(), Child::Two(6, 9));
    assert_eq!(leaf.node().kind(), Child::World(12));
}

#[test]
fn sphere_record_keeps_what_it_was_made_of() {
    let metal = EnumMaterialPod::new_metal(v(0.7, 0.6, 0.5), s(0.25));
    let sphere = SpherePod::new(v(4.0, 1.0, 0.0), s(1.0), metal);
    assert_eq!(sphere.center(), v(4.0, 1.0, 0.0));
    assert_eq!(sphere.radius(), s(1.0));
    assert_eq!(sphere.sphere().center, v(4.0, 1.0, 0.0));
    assert_eq!(sphere.sphere().radius, s(1.0));
    assert_eq!(sphere.sphere().material, metal.material());
}

#[test]
fn material_records_carry_tag_and_parameters() {
    let diffuse = EnumMaterialPod::new_lambertian(v(0.4, 0.2, 0.1)).material();
    assert_eq!(diffuse.t, 0);
    assert_eq!(diffuse.albedo(), v(0.4, 0.2, 0.1));
    assert_eq!(diffuse.data.w, s(0.0));
    let metal = EnumMaterialPod::new_metal(v(0.7, 0.6, 0.5), s(0.3)).material();
    assert_eq!(metal.t, 1);
    assert_eq!(metal.albedo(), v(0.7, 0.6, 0.5));
    assert_eq!(metal.data.w, s(0.3));
    let glass = EnumMaterialPod::new_dielectric(s(1.5)).material();
    assert_eq!(glass.t, 2);
    assert_eq!(glass.data.x, s(1.5));
    assert_eq!(glass.data.y, s(0.0));
    assert_eq!(EnumMaterialPod::default().material().t, 0);
}

#[test]
fn built_hierarchy_is_accepted() {
    for n in [1usize, 2, 5, 100] {
        let mut world = scene(n, 81);
        let nodes = build(&mut world, 82);
        assert!(BVH { nodes: &nodes }.is_wf(n));
        assert!(!BVH { nodes: &nodes }.is_wf(n - 1));
    }
    let none: Vec<BVHNode> = Vec::new();
    assert!(!BVH { nodes: &none }.is_wf(0));
}

#[test]
fn hierarchy_with_a_link_backwards_is_refused() {
    let aabb = AABB { minimum: v(0.0, 0.0, 0.0), maximum: v(1.0, 1.0, 1.0) };
    let leaf = BVHNode { aabb, child: UVec4 { x: 2, y: 0, z: 0, w: 0 } };
    let good = vec![BVHNode { aabb, child: UVec4 { x: 1, y: 1, z: 2, w: 0 } }, leaf, leaf];
    assert!(BVH { nodes: &good }.is_wf(1));
    let to_itself = vec![BVHNode { aabb, child: UVec4 { x: 1, y: 0, z: 2, w: 0 } }, leaf, leaf];
    assert!(!BVH { nodes: &to_itself }.is_wf(1));
    let past_the_end = vec![BVHNode { aabb, child: UVec4 { x: 0, y: 3, z: 0, w: 0 } }, leaf, leaf];
    assert!(!BVH { nodes: &past_the_end }.is_wf(1));
    let backwards = vec![leaf, BVHNode { aabb, child: UVec4 { x: 0, y: 0, z: 0, w: 0 } }];
    assert!(!BVH { nodes: &backwards }.is_wf(1));
}

#[test]
fn hierarchy_that_is_too_high_for_the_stack_is_refused() {
    let aabb = AABB { minimum: v(0.0, 0.0, 0.0), maximum: v(1.0, 1.0, 1.0) };
    let chain = |length: u32| -> Vec<BVHNode> {
        let mut nodes = Vec::new();
        for i in 0..length - 1 {
            nodes.push(BVHNode { aabb, child: UVec4 { x: 0, y: i + 1, z: 0, w: 0 } });
        }
        nodes.push(BVHNode { aabb, child: UVec4 { x: 2, y: 0, z: 0, w: 0 } });
        nodes
    };
    assert!(BVH { nodes: &chain(32) }.is_wf(1));
    assert!(!BVH { nodes: &chain(33) }.is_wf(1));
}

#[test]
fn sphere_record_lies_in_sixteen_words() {
    let metal = EnumMaterialPod::new_metal(v(0.7, 0.6, 0.5), s(0.25));
    let sphere = SpherePod::new(v(4.0, 1.0, -2.0), s(1.5), metal);
    let words = sphere.words();
    let expected: [u32; 16] = [
        4.0f32.to_bits(),
        1.0f32.to_bits(),
        (-2.0f32).to_bits(),
        0,
        1.5f32.to_bits(),
        0,
        0,
        0,
        0.7f32.to_bits(),
        0.6f32.to_bits(),
        0.5f32.to_bits(),
        0.25f32.to_bits(),
        1,
        0,
        0,
        0,
    ];
    assert_eq!(words, expected);
    assert_eq!(metal.words(), [expected[8], expected[9], expected[10], expected[11], 1, 0, 0, 0]);
    let back = SpherePod::from_words(&words);
    assert_eq!(back.sphere(), sphere.sphere());
    assert_eq!(back.words(), words);
    assert_eq!(EnumMaterialPod::from_words(&metal.words()).material(), metal.material());
}

#[test]
fn node_record_lies_in_twelve_words() {
    let aabb = AABB { minimum: v(1.0, 2.0, 3.0), maximum: v(4.0, 5.0, 6.0) };
    let two: BVHNodePod = BVHNodeInner { aabb, child: BVHChildInner::Two(6, 9) }.into();
    let words = two.words();
    let expected: [u32; 12] = [
        1.0f32.to_bits(),
        2.0f32.to_bits(),
        3.0f32.to_bits(),
        0,
        4.0f32.to_bits(),
        5.0f32.to_bits(),
        6.0f32.to_bits(),
        0,
        1,
        6,
        9,
        0,
    ];
    assert_eq!(words, expected);
    assert_eq!(BVHNodePod::from_words(&words).node(), two.node());
    assert_eq!(BVHNodePod::from_words(&words).words(), words);
}

#[test]
fn built_nodes_have_zero_padding() {
    let mut world = scene(9, 91);
    let mut rng = StdRng::seed_from_u64(92);
    let pods = create_bvh(&mut world, s(0.0), s(1.0), &mut rng, &bounding_box);
    for pod in pods.iter() {
        let words = pod.words();
        assert_eq!(words[3], 0);
        assert_eq!(words[7], 0);
    }
}

#[test]
fn tied_spheres_are_hit_at_the_same_parameter() {
    // two spheres in one place: both searches hit at the same parameter,
    // and each keeps the sphere that it came to first
    let first = EnumMaterialPod::new_lambertian(v(0.1, 0.1, 0.1));
    let second = EnumMaterialPod::new_metal(v(0.9, 0.9, 0.9), s(0.0));
    let mut world = vec![
        SpherePod::new(v(0.0, 0.0, -1.0), s(0.5), first),
        SpherePod::new(v(0.0, 0.0, -1.0), s(0.5), second),
    ];
    let nodes = build(&mut world, 101);
    let world = spheres(&world);
    for direction in [[0.0, 0.0, -1.0], [0.1, 0.05, -1.0]] {
        let r = ray([0.0, 0.0, 0.0], direction);
        let found = traverse(&nodes, &world, &r, 0.001, f32::INFINITY).unwrap();
        let scanned = brute_force(&world, &r, 0.001, f32::INFINITY).unwrap();
        assert_eq!(found.t, scanned.t);
        assert_eq!(found.position, scanned.position);
        assert_eq!(found.normal, scanned.normal);
        // the traversal visits the second child of the root first
        assert_eq!(found.material, world[1].material);
        assert_eq!(scanned.material, world[0].material);
    }
    let straight = ray([0.0, 0.0, 0.0], [0.0, 0.0, -1.0]);
    assert_eq!(f(traverse(&nodes, &world, &straight, 0.001, f32::INFINITY).unwrap().t), 0.5);
}

#[test]
fn hit_at_the_parameter_on_record_changes_nothing() {
    // three spheres along the ray, the two nearest in one place: the record
    // is that of the nearest one tested first, whatever comes after it
    let materials = [
        EnumMaterialPod::new_lambertian(v(0.1, 0.1, 0.1)),
        EnumMaterialPod::new_metal(v(0.9, 0.9, 0.9), s(0.0)),
        EnumMaterialPod::new_dielectric(s(1.5)),
    ];
    let pods = vec![
        SpherePod::new(v(0.0, 0.0, -5.0), s(0.5), materials[2]),
        SpherePod::new(v(0.0, 0.0, -1.0), s(0.5), materials[0]),
        SpherePod::new(v(0.0, 0.0, -1.0), s(0.5), materials[1]),
    ];
    for seed in 0..8 {
        let mut world = pods.clone();
        let nodes = build(&mut world, seed);
        let world = spheres(&world);
        let r = ray([0.0, 0.0, 0.0], [0.01, 0.02, -1.0]);
        let found = traverse(&nodes, &world, &r, 0.001, f32::INFINITY).unwrap();
        let scanned = brute_force(&world, &r, 0.001, f32::INFINITY).unwrap();
        assert_eq!(found.t, scanned.t);
        assert!(found.material != materials[2].material());
        assert!(scanned.material != materials[2].material());
        // the scan keeps the first of the two in the order of the world
        let first = world.iter().position(|s| s.material != materials[2].material()).unwrap();
        assert_eq!(scanned.material, world[first].material);
    }
    // a sphere tested against a window that ends at its root is hit: the
    // window is closed
    let sphere = pods[1].sphere();
    let r = ray([0.0, 0.0, 0.0], [0.0, 0.0, -1.0]);
    let mut record = HitRecord::default();
    assert!(sphere.hit(&r, s(0.001), s(0.5), &mut record, &crossing).get());
    assert_eq!(f(record.t), 0.5);
}

#[test]
fn hit_at_the_very_end_of_the_window() {
    // the window ends exactly where the sphere is reached, on a face of its
    // box: the brute-force search hits, the traversal passes the box over
    let grey = EnumMaterialPod::new_lambertian(v(0.5, 0.5, 0.5));
    let mut world = vec![SpherePod::new(v(0.0, 0.0, -1.0), s(0.5), grey)];
    let nodes = build(&mut world, 102);
    let world = spheres(&world);
    let r = ray([0.0, 0.0, 0.0], [0.0, 0.0, -1.0]);
    assert!(brute_force(&world, &r, 0.001, 0.5).is_some());
    assert!(traverse(&nodes, &world, &r, 0.001, 0.5).is_none());
    assert!(traverse(&nodes, &world, &r, 0.001, 0.50001).is_some());
}
