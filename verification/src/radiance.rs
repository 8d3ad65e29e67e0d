//! The path that light takes, traced backwards from the eye through a scene.
//!
//! A path starts with a ray. Where the ray hits the scene, the material of
//! the surface scatters it, and the path goes on along the scattered ray,
//! tinted by the attenuation of the material. It ends where a ray leaves the
//! scene, where a material absorbs it, or at the depth bound.

use crate::hitable::{
    all_report_nearest, misses, scanned, scanned_is_closest, HitRecord, Hitable, HitableList,
};
use crate::material::{scatters, Material};
use crate::ray::Ray;
use crate::scalar::{Scalar, INFINITY_BITS};
use crate::vec3::Vec3;
use vstd::prelude::*;

verus! {

/// The depth from which on no scattered ray is followed.
pub const MAX_DEPTH: i32 = 50;

/// The pattern of `0.001`, the lower end of the window in which a ray is
/// tested against the scene: a scattered ray must not hit the surface that
/// it leaves.
pub const T_MIN_BITS: u64 = 0x3F50_624D_D2F1_A9FC;

/// What happens at one point of a path.
#[derive(Debug)]
pub enum Step {
    /// The ray hit nothing and leaves the scene.
    Escape,
    /// The path ends without light: the ray was absorbed, or the depth bound
    /// is reached.
    Stop,
    /// The path goes on along `scattered`, and what is gathered along it is
    /// multiplied by `attenuation`.
    Follow { attenuation: Vec3, scattered: Ray },
}

/// How a path ended.
#[derive(Debug)]
pub enum PathEnd {
    /// The last ray left the scene: the path gathers the background along it.
    Sky(Ray),
    /// The path gathers no light.
    Dark,
}

/// A traced path: its end, and the attenuations of its bounces, last bounce
/// first.
///
/// The colour of a path is the colour of its end, black for `Dark`,
/// multiplied component by component by each attenuation in turn:
/// [`Path::gather`] computes it.
#[derive(Debug)]
pub struct Path {
    pub attenuations: Vec<Vec3>,
    pub end: PathEnd,
}

/// The lower end of the hit window.
pub open spec fn t_min() -> Scalar {
    Scalar { bits: T_MIN_BITS }
}

/// The upper end of the hit window: positive infinity.
pub open spec fn t_max() -> Scalar {
    Scalar { bits: INFINITY_BITS }
}

/// How many scattered rays a path that starts at `depth` may still follow.
pub open spec fn bounces_left(depth: i32) -> nat {
    if depth < MAX_DEPTH {
        (MAX_DEPTH - depth) as nat
    } else {
        0
    }
}

/// The step that follows from what the scene answered at `depth`: `None`
/// where the ray hit nothing, else what the material of the surface
/// returned.
pub open spec fn step_of(depth: i32, answer: Option<(Vec3, Option<Ray>)>) -> Step {
    match answer {
        None => Step::Escape,
        Some((attenuation, Some(scattered))) => if depth < MAX_DEPTH {
            Step::Follow { attenuation, scattered }
        } else {
            Step::Stop
        },
        Some((_, None)) => Step::Stop,
    }
}

/// Whether the scene can answer `hit` for `ray`, asked for the hit window.
pub open spec fn struck<H: Hitable>(
    surfaces: Seq<H>,
    ray: Ray,
    hit: Option<HitRecord<H::Mat>>,
) -> bool {
    scanned(surfaces, ray, t_min(), t_max(), surfaces.len(), hit)
}

/// Whether `answer` can follow `hit`: nothing where the ray hit nothing,
/// else what the material of the surface can return.
pub open spec fn answered<M: Material>(
    ray: Ray,
    hit: Option<HitRecord<M>>,
    answer: Option<(Vec3, Option<Ray>)>,
) -> bool {
    match hit {
        None => answer is None,
        Some(hit_record) => answer matches Some(out) && scatters(ray, hit_record, out),
    }
}

/// Whether a path with these attenuations and this end can be the path of
/// `ray` through the scene from `depth` on: whether the scene and the
/// material that was hit can answer so that the path takes a first step
/// with which it continues as [`continued`] says.
pub open spec fn traced<H: Hitable>(
    surfaces: Seq<H>,
    ray: Ray,
    depth: i32,
    attenuations: Seq<Vec3>,
    end: PathEnd,
) -> bool
    decreases bounces_left(depth), 1nat,
{
    exists|hit: Option<HitRecord<H::Mat>>, answer: Option<(Vec3, Option<Ray>)>|
        {
            &&& #[trigger] struck(surfaces, ray, hit)
            &&& #[trigger] answered(ray, hit, answer)
            &&& continued(surfaces, ray, depth, step_of(depth, answer), attenuations, end)
        }
}

/// Whether a path of `ray` with these attenuations and this end can take
/// `step` as its first step.
///
/// A ray that escapes is the whole path, which ends in the sky along it. A
/// ray that is stopped is the whole path, which ends dark. Where a scattered
/// ray is followed, the rest is a path of that ray one level deeper, and the
/// attenuation of this step comes after those of the rest.
pub open spec fn continued<H: Hitable>(
    surfaces: Seq<H>,
    ray: Ray,
    depth: i32,
    step: Step,
    attenuations: Seq<Vec3>,
    end: PathEnd,
) -> bool
    decreases bounces_left(depth), 0nat,
{
    match step {
        Step::Escape => attenuations.len() == 0 && end == PathEnd::Sky(ray),
        Step::Stop => attenuations.len() == 0 && end == PathEnd::Dark,
        Step::Follow { attenuation, scattered } => {
            &&& depth < MAX_DEPTH
            &&& attenuations.len() > 0
            &&& attenuations.last() == attenuation
            &&& traced(surfaces, scattered, (depth + 1) as i32, attenuations.drop_last(), end)
        },
    }
}

/// Whether a material of type `M` absorbs every ray.
pub open spec fn absorbs_all<M: Material>() -> bool {
    forall|ray_in: Ray, hit_record: HitRecord<M>, out: (Vec3, Option<Ray>)|
        #[trigger] scatters(ray_in, hit_record, out) ==> out.1 is None
}

/// A path with attenuations followed a scattered ray below the depth bound:
/// without its last attenuation it is a path of that ray one level deeper.
pub proof fn traced_goes_on<H: Hitable>(
    surfaces: Seq<H>,
    ray: Ray,
    depth: i32,
    attenuations: Seq<Vec3>,
    end: PathEnd,
) -> (scattered: Ray)
    requires
        traced(surfaces, ray, depth, attenuations, end),
        attenuations.len() > 0,
    ensures
        depth < MAX_DEPTH,
        traced(surfaces, scattered, (depth + 1) as i32, attenuations.drop_last(), end),
{
    let (hit, answer) = choose|
        hit: Option<HitRecord<H::Mat>>,
        answer: Option<(Vec3, Option<Ray>)>,
    |
        {
            &&& #[trigger] struck(surfaces, ray, hit)
            &&& #[trigger] answered(ray, hit, answer)
            &&& continued(surfaces, ray, depth, step_of(depth, answer), attenuations, end)
        };
    step_of(depth, answer)->scattered
}

/// A path follows no more scattered rays than the depth bound leaves.
pub proof fn traced_within_depth<H: Hitable>(
    surfaces: Seq<H>,
    ray: Ray,
    depth: i32,
    attenuations: Seq<Vec3>,
    end: PathEnd,
)
    requires
        traced(surfaces, ray, depth, attenuations, end),
    ensures
        attenuations.len() <= bounces_left(depth),
    decreases bounces_left(depth),
{
    if attenuations.len() > 0 {
        let scattered = traced_goes_on(surfaces, ray, depth, attenuations, end);
        let deeper = (depth + 1) as i32;
        traced_within_depth(surfaces, scattered, deeper, attenuations.drop_last(), end);
    }
}

/// From the depth bound on no scattered ray is followed, whatever the scene
/// holds: the path is dark, or the ray itself left the scene.
pub proof fn traced_at_depth_bound<H: Hitable>(
    surfaces: Seq<H>,
    ray: Ray,
    depth: i32,
    attenuations: Seq<Vec3>,
    end: PathEnd,
)
    requires
        depth >= MAX_DEPTH,
        traced(surfaces, ray, depth, attenuations, end),
    ensures
        attenuations.len() == 0,
        end == PathEnd::Dark || end == PathEnd::Sky(ray),
{
}

/// Where every material absorbs, no scattered ray is followed from any
/// depth: the path is dark, or the ray itself left the scene.
pub proof fn traced_through_absorbers<H: Hitable>(
    surfaces: Seq<H>,
    ray: Ray,
    depth: i32,
    attenuations: Seq<Vec3>,
    end: PathEnd,
)
    requires
        absorbs_all::<H::Mat>(),
        traced(surfaces, ray, depth, attenuations, end),
    ensures
        attenuations.len() == 0,
        end == PathEnd::Dark || end == PathEnd::Sky(ray),
{
}

/// In a scene without surfaces every path is the ray itself leaving for the
/// sky.
pub proof fn traced_in_empty_scene<H: Hitable>(
    surfaces: Seq<H>,
    ray: Ray,
    depth: i32,
    attenuations: Seq<Vec3>,
    end: PathEnd,
)
    requires
        surfaces.len() == 0,
        traced(surfaces, ray, depth, attenuations, end),
    ensures
        attenuations.len() == 0,
        end == PathEnd::Sky(ray),
{
}

/// A path ends in the sky only along a ray that the scene answered with no
/// hit, and where nothing was followed that ray is the first.
pub proof fn traced_to_sky<H: Hitable>(
    surfaces: Seq<H>,
    ray: Ray,
    depth: i32,
    attenuations: Seq<Vec3>,
    end: PathEnd,
)
    requires
        traced(surfaces, ray, depth, attenuations, end),
        end is Sky,
    ensures
        struck(surfaces, end->Sky_0, None),
        attenuations.len() == 0 ==> end == PathEnd::Sky(ray),
    decreases bounces_left(depth),
{
    if attenuations.len() > 0 {
        let scattered = traced_goes_on(surfaces, ray, depth, attenuations, end);
        let deeper = (depth + 1) as i32;
        traced_to_sky(surfaces, scattered, deeper, attenuations.drop_last(), end);
    }
}

/// Where the surfaces report their nearest crossings, a path ends in the sky
/// only along a ray that crosses no surface inside the hit window.
pub proof fn sky_is_clear<H: Hitable>(
    surfaces: Seq<H>,
    ray: Ray,
    depth: i32,
    attenuations: Seq<Vec3>,
    end: PathEnd,
)
    requires
        traced(surfaces, ray, depth, attenuations, end),
        end is Sky,
        all_report_nearest(surfaces, end->Sky_0),
    ensures
        misses(surfaces, end->Sky_0, t_min(), t_max()),
{
    traced_to_sky(surfaces, ray, depth, attenuations, end);
    scanned_is_closest(surfaces, end->Sky_0, t_min(), t_max(), surfaces.len(), None);
    assert(surfaces.take(surfaces.len() as int) =~= surfaces);
}

/// Decides one step of a path from what the scene answered at `depth`:
/// `None` where the ray hit nothing, else what the material of the surface
/// returned. A scattered ray is followed only below the depth bound.
pub fn step(depth: i32, answer: Option<(Vec3, Option<Ray>)>) -> (r: Step)
    ensures
        r == step_of(depth, answer),
{
    match answer {
        None => Step::Escape,
        Some((attenuation, Some(scattered))) => {
            if depth < MAX_DEPTH {
                Step::Follow { attenuation, scattered }
            } else {
                Step::Stop
            }
        },
        Some((_, None)) => Step::Stop,
    }
}

/// Traces the path of `ray` through `world`, starting at `depth`.
///
/// The ray is tested against the scene in the window from `0.001` to
/// infinity. Where it hits, the material of the surface is asked to scatter
/// it, at the depth bound too, and [`step`] decides how the path goes on.
/// Materials may scatter at random, so the path is not a function of the
/// arguments: it is one of the paths that the scene and its materials allow.
pub fn trace<H: Hitable>(ray: &Ray, world: &HitableList<H>, depth: i32) -> (path: Path)
    ensures
        traced(world.surfaces(), *ray, depth, path.attenuations@, path.end),
        path.attenuations@.len() <= bounces_left(depth),
        depth >= MAX_DEPTH ==> path.end == PathEnd::Dark || path.end == PathEnd::Sky(*ray),
        world.surfaces().len() == 0 ==> path.attenuations@.len() == 0 && path.end
            == PathEnd::Sky(*ray),
    decreases bounces_left(depth),
{
    let hit = world.hit(ray, Scalar::from_bits(T_MIN_BITS), Scalar::infinity());
    let answer = match hit {
        Some(hit_record) => Some(hit_record.material.scatter(ray, &hit_record)),
        None => None,
    };
    assert(struck(world.surfaces(), *ray, hit));
    assert(answered(*ray, hit, answer));
    match step(depth, answer) {
        Step::Escape => Path { attenuations: Vec::new(), end: PathEnd::Sky(*ray) },
        Step::Stop => Path { attenuations: Vec::new(), end: PathEnd::Dark },
        Step::Follow { attenuation, scattered } => {
            let mut path = trace(&scattered, world, depth + 1);
            let ghost rest = path.attenuations@;
            path.attenuations.push(attenuation);
            assert(path.attenuations@.drop_last() =~= rest);
            path
        },
    }
}

/// Whether `colour` can be what a path gathers through its first `k`
/// attenuations: the colour of its end, `sky` of the last ray or `dark`,
/// tinted by each of these attenuations in turn.
pub open spec fn gathered<C, S: Fn(&Ray) -> C, T: Fn(&Vec3, C) -> C>(
    attenuations: Seq<Vec3>,
    end: PathEnd,
    sky: S,
    dark: C,
    tint: T,
    k: nat,
    colour: C,
) -> bool
    decreases k,
{
    if k == 0 {
        match end {
            PathEnd::Sky(last) => call_ensures(sky, (&last,), colour),
            PathEnd::Dark => colour == dark,
        }
    } else {
        exists|inner: C|
            {
                &&& gathered(attenuations, end, sky, dark, tint, (k - 1) as nat, inner)
                &&& #[trigger] call_ensures(tint, (&attenuations[k - 1], inner), colour)
            }
    }
}

impl Path {
    /// The colour of the path, for colours of any kind: `sky` gives the
    /// colour of the background along a ray, `dark` is the colour of no
    /// light, and `tint` multiplies a colour by an attenuation.
    ///
    /// The colour of the end is tinted by the attenuations in the order in
    /// which the path lists them. In rounded arithmetic the order matters.
    pub fn gather<C, S: Fn(&Ray) -> C, T: Fn(&Vec3, C) -> C>(
        &self,
        sky: S,
        dark: C,
        tint: T,
    ) -> (colour: C)
        requires
            forall|last: &Ray| call_requires(sky, (last,)),
            forall|attenuation: &Vec3, inner: C| call_requires(tint, (attenuation, inner)),
        ensures
            gathered(
                self.attenuations@,
                self.end,
                sky,
                dark,
                tint,
                self.attenuations@.len(),
                colour,
            ),
    {
        let mut colour = match &self.end {
            PathEnd::Sky(last) => sky(last),
            PathEnd::Dark => dark,
        };
        let mut k: usize = 0;
        while k < self.attenuations.len()
            invariant
                k <= self.attenuations@.len(),
                forall|attenuation: &Vec3, inner: C| call_requires(tint, (attenuation, inner)),
                gathered(self.attenuations@, self.end, sky, dark, tint, k as nat, colour),
            decreases self.attenuations@.len() - k,
        {
            let ghost inner = colour;
            colour = tint(&self.attenuations[k], colour);
            k = k + 1;
            assert(call_ensures(tint, (&self.attenuations@[k - 1], inner), colour));
        }
        colour
    }
}

} // verus!
