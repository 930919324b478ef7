use vstd::prelude::*;
use crate::aabb::{Slabs, AABB};
use crate::bvh::{
    cast_of, crossing_kernel, linked, slabs_kernel, BVHNode, Cast, Child, Found, BVH,
};
use crate::hittable::HitRecord;
use crate::material::{dim, white, MaterialKind, Reflection, Refraction, Scatter};
use crate::path::{Bounce, Path, PathState, Tint, MAX_BOUNCES};
use crate::ray::Ray;
use crate::scalar::{Scalar, INFINITY_BITS};
use crate::sphere::{Crossing, Sphere};
use crate::vec3::Vec3;

verus! {

/// The bit pattern of 0.001, where every window begins: a ray does not hit
/// the surface that it leaves.
pub const T_MIN_BITS: u32 = 0x3a83_126f;

/// The arithmetic of a tracer, one kernel for each formula.
pub struct Kernels<S, C, D, M, R, U, T, K> {
    /// A ray against the planes of a box.
    pub slabs: S,
    /// A ray against a sphere.
    pub crossing: C,
    /// The direction in which a diffuse surface scatters.
    pub diffuse: D,
    /// The reflection off a metal.
    pub mirror: M,
    /// A ray at the face of a dielectric.
    pub refraction: R,
    /// A number drawn from `[0, 1)`.
    pub uniform: U,
    /// The product of two colours, channel by channel.
    pub tint: T,
    /// The colour of the sky in the direction of a ray.
    pub sky: K,
}

/// A path of light on its way: the ray that is followed, the colour so far,
/// and the records that the bounces overwrite.
pub struct Tracing {
    pub ray: Ray,
    pub color: Vec3,
    pub path: Path,
    pub record: HitRecord,
    pub scatter: Scatter,
}

impl<
    S: Fn(&AABB, &Ray) -> Slabs,
    C: Fn(&Sphere, &Ray) -> Crossing,
    D: Fn(&HitRecord) -> Vec3,
    M: Fn(&Ray, &HitRecord, Scalar) -> Reflection,
    R: Fn(&Ray, &HitRecord, Scalar, bool) -> Refraction,
    U: Fn() -> Scalar,
    T: Fn(Vec3, Vec3) -> Vec3,
    K: Fn(&Ray) -> Vec3,
> Kernels<S, C, D, M, R, U, T, K> {
    /// Whether every kernel may be called on whatever a path brings, and
    /// the two kernels of the traversal return one value for each ray.
    pub open spec fn wf(self, world: Seq<Sphere>, nodes: Seq<BVHNode>) -> bool {
        &&& forall|ray: Ray| #[trigger] slabs_kernel(self.slabs, nodes, ray)
        &&& forall|ray: Ray| #[trigger] crossing_kernel(self.crossing, world, ray)
        &&& forall|hit: &HitRecord| #[trigger] call_requires(self.diffuse, (hit,))
        &&& forall|ray: &Ray, hit: &HitRecord, fuzz: Scalar| #[trigger]
            call_requires(self.mirror, (ray, hit, fuzz))
        &&& forall|ray: &Ray, hit: &HitRecord, ir: Scalar, inverse: bool| #[trigger]
            call_requires(self.refraction, (ray, hit, ir, inverse))
        &&& call_requires(self.uniform, ())
        &&& forall|a: Vec3, b: Vec3| #[trigger] call_requires(self.tint, (a, b))
        &&& forall|ray: &Ray| #[trigger] call_requires(self.sky, (ray,))
    }

    /// Whether `next` can follow `cur` by one traversal of the scene.
    ///
    /// The closest hit of the ray from 0.001 on is looked for. A hit is
    /// scattered by its material: where the ray goes on, the colour is
    /// multiplied by the attenuation and the scattered ray is followed;
    /// where it is absorbed, the path ends and the colour stays. A miss
    /// ends the path, with the colour multiplied by that of the sky.
    pub open spec fn step(self, world: Seq<Sphere>, nodes: Seq<BVHNode>, cur: Tracing, next: Tracing) -> bool {
        let cast = cast_of(nodes, world, cur.ray, Scalar { bits: T_MIN_BITS }, self.slabs, self.crossing);
        let found = cast.traverse(Scalar { bits: INFINITY_BITS }, cur.record);
        &&& !cur.path.ended()
        &&& next.record == found.record
        &&& if found.hit {
            exists|r: u32| #[trigger]
                found.record.material.scatters(
                    cur.ray,
                    found.record,
                    cur.scatter,
                    next.scatter,
                    r,
                    self.diffuse,
                    self.mirror,
                    self.refraction,
                    self.uniform,
                ) && if r != 0 {
                    &&& next.path == cur.path.next(Bounce::Scattered).0
                    &&& call_ensures(self.tint, (cur.color, next.scatter.color), next.color)
                    &&& next.ray == next.scatter.ray
                } else {
                    &&& next.path == cur.path.next(Bounce::Absorbed).0
                    &&& next.color == cur.color
                    &&& next.ray == cur.ray
                }
        } else {
            &&& next.scatter == cur.scatter
            &&& next.path == cur.path.next(Bounce::Missed).0
            &&& next.ray == cur.ray
            &&& exists|sky: Vec3| #[trigger]
                call_ensures(self.sky, (&cur.ray,), sky) && call_ensures(
                    self.tint,
                    (cur.color, sky),
                    next.color,
                )
        }
    }

    /// Whether `end` can follow `start` by `n` traversals.
    pub open spec fn leads(
        self,
        world: Seq<Sphere>,
        nodes: Seq<BVHNode>,
        start: Tracing,
        n: nat,
        end: Tracing,
    ) -> bool
        decreases n,
    {
        if n == 0 {
            start == end
        } else {
            exists|mid: Tracing|
                self.leads(world, nodes, start, (n - 1) as nat, mid) && #[trigger] self.step(
                    world,
                    nodes,
                    mid,
                    end,
                )
        }
    }

    /// A path that is followed for one traversal more is a path.
    pub proof fn lemma_leads_on(
        self,
        world: Seq<Sphere>,
        nodes: Seq<BVHNode>,
        start: Tracing,
        n: nat,
        mid: Tracing,
        end: Tracing,
    )
        requires
            self.leads(world, nodes, start, n, mid),
            self.step(world, nodes, mid, end),
        ensures
            self.leads(world, nodes, start, n + 1, end),
    {
        assert(((n + 1) - 1) as nat == n);
    }

    /// Whether `color` can be what a path that begins with `ray` brings
    /// back: the colour at the end of a path of at most `MAX_BOUNCES`
    /// traversals that began white.
    pub open spec fn colors(self, world: Seq<Sphere>, nodes: Seq<BVHNode>, ray: Ray, color: Vec3) -> bool {
        exists|n: nat, end: Tracing| #[trigger]
            self.leads(world, nodes, start_of(ray), n, end) && n <= MAX_BOUNCES
                && end.path.ended() && end.color == color
    }
}

/// A path at the camera: white, with nothing hit yet.
pub open spec fn start_of(ray: Ray) -> Tracing {
    Tracing {
        ray,
        color: white(),
        path: Path { state: PathState::Tracing, bounces: 0 },
        record: HitRecord::blank(),
        scatter: Scatter::blank(),
    }
}

/// The colour that a path of light brings back along `ray`.
///
/// The path is followed from bounce to bounce, through the hierarchy `bvh`
/// over `world`, until the ray misses the scene or is absorbed, and for
/// `MAX_BOUNCES` traversals at most. The arithmetic is that of `kernels`;
/// the colour is one that those kernels can give.
pub fn ray_color<
    S: Fn(&AABB, &Ray) -> Slabs,
    C: Fn(&Sphere, &Ray) -> Crossing,
    D: Fn(&HitRecord) -> Vec3,
    M: Fn(&Ray, &HitRecord, Scalar) -> Reflection,
    R: Fn(&Ray, &HitRecord, Scalar, bool) -> Refraction,
    U: Fn() -> Scalar,
    T: Fn(Vec3, Vec3) -> Vec3,
    K: Fn(&Ray) -> Vec3,
>(ray: Ray, world: &[Sphere], bvh: &[BVHNode], kernels: &Kernels<S, C, D, M, R, U, T, K>) -> (color:
    Vec3)
    requires
        (BVH { nodes: bvh }).wf(world@.len()),
        kernels.wf(world@, bvh@),
    ensures
        kernels.colors(world@, bvh@, ray, color),
{
    let ghost start = start_of(ray);
    let hierarchy = BVH { nodes: bvh };
    let t_min = Scalar { bits: T_MIN_BITS };
    let t_max = Scalar::infinity();
    let mut ray = ray;
    let mut color = Vec3::splat(Scalar::one());
    let mut hit_record = HitRecord::default();
    let mut scatter = Scatter::default();
    let mut path = Path::new();
    let ghost mut n: nat = 0;
    while path.is_tracing()
        invariant
            path.wf(),
            hierarchy.nodes@ == bvh@,
            hierarchy.wf(world@.len()),
            kernels.wf(world@, bvh@),
            t_min == (Scalar { bits: T_MIN_BITS }),
            t_max == (Scalar { bits: INFINITY_BITS }),
            n <= MAX_BOUNCES,
            !path.ended() ==> n == path.bounces,
            kernels.leads(
                world@,
                bvh@,
                start,
                n,
                Tracing { ray, color, path, record: hit_record, scatter },
            ),
        decreases path.spec_remaining(),
    {
        let ghost cur = Tracing { ray, color, path, record: hit_record, scatter };
        proof {
            assert(slabs_kernel(kernels.slabs, bvh@, ray));
            assert(crossing_kernel(kernels.crossing, world@, ray));
            crate::path::lemma_path_ends(path, Bounce::Scattered);
            crate::path::lemma_path_ends(path, Bounce::Absorbed);
            crate::path::lemma_path_ends(path, Bounce::Missed);
        }
        let hit = hierarchy.hit(
            &ray,
            t_min,
            t_max,
            &mut hit_record,
            world,
            &kernels.slabs,
            &kernels.crossing,
        );
        let ghost found = cast_of(bvh@, world@, ray, t_min, kernels.slabs, kernels.crossing).traverse(
            t_max,
            cur.record,
        );
        proof {
            crate::bool32::lemma_of(found.hit);
        }
        let mut scattered: u32 = 0;
        let bounce = if hit.get() {
            let material = hit_record.material;
            scattered =
            material.scatter(
                &ray,
                &hit_record,
                &mut scatter,
                &kernels.diffuse,
                &kernels.mirror,
                &kernels.refraction,
                &kernels.uniform,
            );
            if scattered != 0 {
                Bounce::Scattered
            } else {
                Bounce::Absorbed
            }
        } else {
            Bounce::Missed
        };
        let ghost lit = color;
        let ghost mut sky_color = color;
        match path.advance(bounce) {
            Tint::Attenuation => {
                let tint = &kernels.tint;
                color = tint(color, scatter.color);
                ray = scatter.ray;
            },
            Tint::Sky => {
                let sky = &kernels.sky;
                let blue = sky(&ray);
                proof {
                    sky_color = blue;
                }
                let tint = &kernels.tint;
                color = tint(color, blue);
            },
            Tint::Unchanged => {},
        }
        proof {
            let next = Tracing { ray, color, path, record: hit_record, scatter };
            if found.hit {
                assert(found.record.material.scatters(
                    cur.ray,
                    found.record,
                    cur.scatter,
                    next.scatter,
                    scattered,
                    kernels.diffuse,
                    kernels.mirror,
                    kernels.refraction,
                    kernels.uniform,
                ));
            } else {
                assert(call_ensures(kernels.sky, (&cur.ray,), sky_color));
                assert(call_ensures(kernels.tint, (cur.color, sky_color), next.color));
            }
            assert(kernels.step(world@, bvh@, cur, next));
            n = n + 1;
            kernels.lemma_leads_on(world@, bvh@, start, (n - 1) as nat, cur, next);
        }
    }
    proof {
        let end = Tracing { ray, color, path, record: hit_record, scatter };
        assert(kernels.leads(world@, bvh@, start_of(start.ray), n, end) && n <= MAX_BOUNCES
            && end.path.ended() && end.color == color);
    }
    color
}

/// Whether every diffuse surface and every metal of the world has an albedo
/// from 0 to 1 on each channel.
pub open spec fn dim_world(world: Seq<Sphere>) -> bool {
    forall|w: int|
        0 <= w < world.len() && (#[trigger] world[w]).material.spec_kind()
            != MaterialKind::Dielectric ==> dim(world[w].material.spec_albedo())
}

/// A record that a traversal leaves holds the material that it held before
/// or that of a primitive of the world.
pub proof fn lemma_visit_material(cast: Cast, i: int, st: Found)
    requires
        cast.wf(),
        0 <= i < cast.nodes.len(),
    ensures
        cast.visit(i, st) == st || (cast.visit(i, st).hit && exists|w: int|
            0 <= w < cast.world.len() && cast.visit(i, st).record.material == (
            #[trigger] cast.world[w]).material),
    decreases cast.nodes.len() - i,
{
    if cast.slabs[i].crosses(cast.t_min, st.t_max) {
        match cast.nodes[i].spec_kind() {
            Child::One(y) => {
                lemma_visit_material(cast, y as int, st);
            },
            Child::Two(y, z) => {
                let mid = cast.visit(z as int, st);
                lemma_visit_material(cast, z as int, st);
                lemma_visit_material(cast, y as int, mid);
            },
            Child::World(v) => {
                let out = cast.test(v as int, st);
                if out != st {
                    assert(out.record.material == cast.world[v as int].material);
                }
            },
        }
    }
}

impl<
    S: Fn(&AABB, &Ray) -> Slabs,
    C: Fn(&Sphere, &Ray) -> Crossing,
    D: Fn(&HitRecord) -> Vec3,
    M: Fn(&Ray, &HitRecord, Scalar) -> Reflection,
    R: Fn(&Ray, &HitRecord, Scalar, bool) -> Refraction,
    U: Fn() -> Scalar,
    T: Fn(Vec3, Vec3) -> Vec3,
    K: Fn(&Ray) -> Vec3,
> Kernels<S, C, D, M, R, U, T, K> {
    /// Whether the arithmetic of colours adds no light: the sky has a
    /// colour from 0 to 1 on each channel, and so has the product of two
    /// such colours.
    pub open spec fn dims(self) -> bool {
        &&& forall|ray: &Ray, sky: Vec3| #[trigger] call_ensures(self.sky, (ray,), sky) ==> dim(sky)
        &&& forall|a: Vec3, b: Vec3, c: Vec3|
            dim(a) && dim(b) && #[trigger] call_ensures(self.tint, (a, b), c) ==> dim(c)
    }

    /// One traversal adds no light to a path.
    pub proof fn lemma_step_dims(self, world: Seq<Sphere>, nodes: Seq<BVHNode>, cur: Tracing, next: Tracing)
        requires
            nodes.len() > 0,
            linked(nodes, world.len()),
            self.dims(),
            dim_world(world),
            dim(cur.color),
            self.step(world, nodes, cur, next),
        ensures
            dim(next.color),
    {
        let cast = cast_of(nodes, world, cur.ray, Scalar { bits: T_MIN_BITS }, self.slabs, self.crossing);
        let st = Found { hit: false, t_max: Scalar { bits: INFINITY_BITS }, record: cur.record };
        let found = cast.traverse(Scalar { bits: INFINITY_BITS }, cur.record);
        lemma_visit_material(cast, 0, st);
        if found.hit {
            let w = choose|w: int|
                0 <= w < cast.world.len() && found.record.material == (#[trigger] cast.world[w]).material;
            let material = found.record.material;
            let r = choose|r: u32| #[trigger]
                material.scatters(
                    cur.ray,
                    found.record,
                    cur.scatter,
                    next.scatter,
                    r,
                    self.diffuse,
                    self.mirror,
                    self.refraction,
                    self.uniform,
                ) && if r != 0 {
                    &&& next.path == cur.path.next(Bounce::Scattered).0
                    &&& call_ensures(self.tint, (cur.color, next.scatter.color), next.color)
                    &&& next.ray == next.scatter.ray
                } else {
                    &&& next.path == cur.path.next(Bounce::Absorbed).0
                    &&& next.color == cur.color
                    &&& next.ray == cur.ray
                };
            if r != 0 {
                assert(dim(world[w].material.spec_albedo()) || material.spec_kind()
                    == MaterialKind::Dielectric);
                assert(dim(next.scatter.color));
            }
        }
    }

    /// No path adds light.
    pub proof fn lemma_leads_dim(
        self,
        world: Seq<Sphere>,
        nodes: Seq<BVHNode>,
        start: Tracing,
        n: nat,
        end: Tracing,
    )
        requires
            nodes.len() > 0,
            linked(nodes, world.len()),
            self.dims(),
            dim_world(world),
            dim(start.color),
            self.leads(world, nodes, start, n, end),
        ensures
            dim(end.color),
        decreases n,
    {
        if n > 0 {
            let mid = choose|mid: Tracing|
                self.leads(world, nodes, start, (n - 1) as nat, mid) && #[trigger] self.step(
                    world,
                    nodes,
                    mid,
                    end,
                );
            self.lemma_leads_dim(world, nodes, start, (n - 1) as nat, mid);
            self.lemma_step_dims(world, nodes, mid, end);
        }
    }

    /// The colour that a path brings back is no brighter than white and no
    /// darker than black on any channel, in a world whose albedos are from
    /// 0 to 1, with arithmetic of colours that adds no light.
    pub proof fn lemma_no_gain_along_path(
        self,
        world: Seq<Sphere>,
        nodes: Seq<BVHNode>,
        ray: Ray,
        color: Vec3,
    )
        requires
            nodes.len() > 0,
            linked(nodes, world.len()),
            self.dims(),
            dim_world(world),
            self.colors(world, nodes, ray, color),
        ensures
            dim(color),
    {
        let (n, end) = choose|n: nat, end: Tracing| #[trigger]
            self.leads(world, nodes, start_of(ray), n, end) && n <= MAX_BOUNCES
                && end.path.ended() && end.color == color;
        self.lemma_leads_dim(world, nodes, start_of(ray), n, end);
    }
}

} // verus!
