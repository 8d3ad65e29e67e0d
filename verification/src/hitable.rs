//! Surfaces a ray can hit, and the scene that holds them.

use crate::material::Material;
use crate::ray::Ray;
use crate::scalar::Scalar;
use crate::vec3::Vec3;
use vstd::prelude::*;

verus! {

/// One intersection of a ray with a surface.
#[derive(Debug)]
pub struct HitRecord<'mat, M> {
    /// The ray parameter at the intersection.
    pub t: Scalar,
    /// The intersection point.
    pub p: Vec3,
    /// The outward unit normal of the surface at `p`.
    pub normal: Vec3,
    /// The material of the surface, shared with the surface that was hit.
    pub material: &'mat M,
}

impl<'mat, M> Clone for HitRecord<'mat, M> {
    fn clone(&self) -> (r: Self)
        ensures
            r == *self,
    {
        HitRecord { t: self.t, p: self.p, normal: self.normal, material: self.material }
    }
}

impl<'mat, M> Copy for HitRecord<'mat, M> {

}

impl<'mat, M> HitRecord<'mat, M> {
    pub fn new(t: Scalar, p: Vec3, normal: Vec3, material: &'mat M) -> (r: Self)
        ensures
            r == (HitRecord { t, p, normal, material }),
    {
        HitRecord { t, p, normal, material }
    }
}

/// A surface that a ray can hit.
///
/// `hit` answers for one window of ray parameters: it returns a record only
/// for an intersection whose parameter lies strictly inside `(t_min, t_max)`.
pub trait Hitable: Sized {
    type Mat: Material;

    fn hit(&self, ray: &Ray, t_min: Scalar, t_max: Scalar) -> (r: Option<HitRecord<Self::Mat>>)
        ensures
            r matches Some(h) ==> h.t.strictly_between(t_min, t_max),
    ;
}

/// Whether `r` is an answer that `surface` can give when it is asked for
/// `ray` and the window `(t_min, t_max)`.
pub open spec fn answers<H: Hitable>(
    surface: H,
    ray: Ray,
    t_min: Scalar,
    t_max: Scalar,
    r: Option<HitRecord<H::Mat>>,
) -> bool {
    call_ensures(H::hit, (&surface, &ray, t_min, t_max), r)
}

/// Whether `ray` crosses `surface` at `rec`: whether the surface can answer
/// `rec` for some window.
pub open spec fn crosses<H: Hitable>(surface: H, ray: Ray, rec: HitRecord<H::Mat>) -> bool {
    exists|t_min: Scalar, t_max: Scalar| #[trigger] answers(surface, ray, t_min, t_max, Some(rec))
}

/// Whether `r` is consistent with answering the nearest crossing inside the
/// window: no crossing of the surface lies inside the window nearer than a
/// record `r`, and none lies inside it at all where `r` is `None`.
pub open spec fn nearest_inside<H: Hitable>(
    surface: H,
    ray: Ray,
    t_min: Scalar,
    t_max: Scalar,
    r: Option<HitRecord<H::Mat>>,
) -> bool {
    match r {
        Some(h) => forall|g: HitRecord<H::Mat>|
            #[trigger] crosses(surface, ray, g) && g.t.strictly_between(t_min, t_max)
                ==> !g.t.lt_spec(h.t),
        None => forall|g: HitRecord<H::Mat>|
            #[trigger] crosses(surface, ray, g) ==> !g.t.strictly_between(t_min, t_max),
    }
}

/// Whether `surface` answers every window of `ray` with its nearest crossing
/// inside that window. A sphere that prefers its nearer root does.
pub open spec fn reports_nearest<H: Hitable>(surface: H, ray: Ray) -> bool {
    forall|t_min: Scalar, t_max: Scalar, r: Option<HitRecord<H::Mat>>|
        #[trigger] answers(surface, ray, t_min, t_max, r) ==> nearest_inside(
            surface,
            ray,
            t_min,
            t_max,
            r,
        )
}

/// Whether every surface of the scene reports its nearest crossing.
pub open spec fn all_report_nearest<H: Hitable>(surfaces: Seq<H>, ray: Ray) -> bool {
    forall|i: int| 0 <= i < surfaces.len() ==> reports_nearest(#[trigger] surfaces[i], ray)
}

/// The upper end of the window for which the next surface is asked: the
/// parameter of the closest hit so far, or `t_max` where there is none yet.
pub open spec fn narrowed_spec<M>(closest: Option<HitRecord<M>>, t_max: Scalar) -> Scalar {
    match closest {
        Some(h) => h.t,
        None => t_max,
    }
}

/// The closest hit after one more surface has answered: its record where it
/// gave one, since it was asked only for what is nearer, else the hit so far.
pub open spec fn closer_spec<'mat, M>(
    candidate: Option<HitRecord<'mat, M>>,
    closest: Option<HitRecord<'mat, M>>,
) -> Option<HitRecord<'mat, M>> {
    if candidate is Some {
        candidate
    } else {
        closest
    }
}

/// Whether `closest` can be the closest hit after the first `k` surfaces of
/// the scene have been asked in turn, each for the window from `t_min` to
/// the closest hit before it.
pub open spec fn scanned<H: Hitable>(
    surfaces: Seq<H>,
    ray: Ray,
    t_min: Scalar,
    t_max: Scalar,
    k: nat,
    closest: Option<HitRecord<H::Mat>>,
) -> bool
    decreases k,
{
    if k == 0 {
        closest is None
    } else {
        exists|before: Option<HitRecord<H::Mat>>, candidate: Option<HitRecord<H::Mat>>|
            {
                &&& scanned(surfaces, ray, t_min, t_max, (k - 1) as nat, before)
                &&& #[trigger] answers(
                    surfaces[k - 1],
                    ray,
                    t_min,
                    narrowed_spec(before, t_max),
                    candidate,
                )
                &&& closest == closer_spec(candidate, before)
            }
    }
}

/// Whether the surface at index `i` is crossed at `h` and every surface
/// before it is crossed inside the window only strictly farther away.
pub open spec fn won_by<H: Hitable>(
    surfaces: Seq<H>,
    ray: Ray,
    t_min: Scalar,
    t_max: Scalar,
    h: HitRecord<H::Mat>,
    i: int,
) -> bool {
    &&& 0 <= i < surfaces.len()
    &&& crosses(surfaces[i], ray, h)
    &&& forall|j: int, g: HitRecord<H::Mat>|
        0 <= j < i && #[trigger] crosses(surfaces[j], ray, g) && g.t.strictly_between(t_min, t_max)
            ==> h.t.lt_spec(g.t)
}

/// Whether no surface of the scene is crossed inside the window.
pub open spec fn misses<H: Hitable>(
    surfaces: Seq<H>,
    ray: Ray,
    t_min: Scalar,
    t_max: Scalar,
) -> bool {
    forall|j: int, g: HitRecord<H::Mat>|
        0 <= j < surfaces.len() && #[trigger] crosses(surfaces[j], ray, g)
            ==> !g.t.strictly_between(t_min, t_max)
}

/// Whether `r` is the closest crossing of the scene inside the window.
///
/// A record is the closest crossing when it lies inside the window, some
/// surface is crossed there, no surface is crossed nearer inside the window,
/// and every surface before that one is crossed inside the window only
/// strictly farther away: of two surfaces at the same distance the earlier
/// one wins. `None` stands for a scene that is not crossed inside the window.
pub open spec fn closest_of<H: Hitable>(
    surfaces: Seq<H>,
    ray: Ray,
    t_min: Scalar,
    t_max: Scalar,
    r: Option<HitRecord<H::Mat>>,
) -> bool {
    match r {
        Some(h) => {
            &&& h.t.strictly_between(t_min, t_max)
            &&& exists|i: int| won_by(surfaces, ray, t_min, t_max, h, i)
            &&& forall|j: int, g: HitRecord<H::Mat>|
                0 <= j < surfaces.len() && #[trigger] crosses(surfaces[j], ray, g)
                    && g.t.strictly_between(t_min, t_max) ==> !g.t.lt_spec(h.t)
        },
        None => misses(surfaces, ray, t_min, t_max),
    }
}

/// The last step of a scan: the closest hit before the last surface was
/// asked, and what that surface answered.
pub proof fn scanned_last<H: Hitable>(
    surfaces: Seq<H>,
    ray: Ray,
    t_min: Scalar,
    t_max: Scalar,
    k: nat,
    closest: Option<HitRecord<H::Mat>>,
) -> (step: (Option<HitRecord<H::Mat>>, Option<HitRecord<H::Mat>>))
    requires
        k > 0,
        scanned(surfaces, ray, t_min, t_max, k, closest),
    ensures
        scanned(surfaces, ray, t_min, t_max, (k - 1) as nat, step.0),
        answers(surfaces[k - 1], ray, t_min, narrowed_spec(step.0, t_max), step.1),
        closest == closer_spec(step.1, step.0),
{
    choose|before: Option<HitRecord<H::Mat>>, candidate: Option<HitRecord<H::Mat>>|
        {
            &&& scanned(surfaces, ray, t_min, t_max, (k - 1) as nat, before)
            &&& #[trigger] answers(
                surfaces[k - 1],
                ray,
                t_min,
                narrowed_spec(before, t_max),
                candidate,
            )
            &&& closest == closer_spec(candidate, before)
        }
}

/// A scan keeps only records inside the window that some surface of the
/// scene is crossed at, whatever the surfaces answer.
pub proof fn scanned_is_inside<H: Hitable>(
    surfaces: Seq<H>,
    ray: Ray,
    t_min: Scalar,
    t_max: Scalar,
    k: nat,
    closest: Option<HitRecord<H::Mat>>,
)
    requires
        k <= surfaces.len(),
        scanned(surfaces, ray, t_min, t_max, k, closest),
    ensures
        closest matches Some(h) ==> h.t.strictly_between(t_min, t_max) && exists|i: int|
            0 <= i < k && crosses(#[trigger] surfaces[i], ray, h),
    decreases k,
{
    if k > 0 {
        let (before, candidate) = scanned_last(surfaces, ray, t_min, t_max, k, closest);
        scanned_is_inside(surfaces, ray, t_min, t_max, (k - 1) as nat, before);
        if let Some(h) = candidate {
            assert(crosses(surfaces[k - 1], ray, h));
        }
    }
}

/// Where every surface reports its nearest crossing, a scan of the first `k`
/// surfaces ends with the closest crossing among them.
pub proof fn scanned_is_closest<H: Hitable>(
    surfaces: Seq<H>,
    ray: Ray,
    t_min: Scalar,
    t_max: Scalar,
    k: nat,
    closest: Option<HitRecord<H::Mat>>,
)
    requires
        k <= surfaces.len(),
        all_report_nearest(surfaces, ray),
        scanned(surfaces, ray, t_min, t_max, k, closest),
    ensures
        closest_of(surfaces.take(k as int), ray, t_min, t_max, closest),
    decreases k,
{
    let first = surfaces.take(k as int);
    if k > 0 {
        let (before, candidate) = scanned_last(surfaces, ray, t_min, t_max, k, closest);
        scanned_is_closest(surfaces, ray, t_min, t_max, (k - 1) as nat, before);
        let fewer = surfaces.take(k - 1);
        assert(forall|j: int| 0 <= j < k - 1 ==> fewer[j] == first[j]);
        assert(first[k - 1] == surfaces[k - 1]);
        assert(reports_nearest(surfaces[k - 1], ray));
        let t_hi = narrowed_spec(before, t_max);
        assert(nearest_inside(surfaces[k - 1], ray, t_min, t_hi, candidate));
        match candidate {
            Some(h) => {
                assert(crosses(surfaces[k - 1], ray, h));
                assert(won_by(first, ray, t_min, t_max, h, k - 1));
            },
            None => {
                if let Some(h) = before {
                    let i = choose|i: int| won_by(fewer, ray, t_min, t_max, h, i);
                    assert(won_by(first, ray, t_min, t_max, h, i));
                }
            },
        }
    }
}

/// Two scenes that hold the same surfaces, in whatever order, have their
/// closest crossing at the same distance, or both have none. Which record
/// it is can differ only between surfaces crossed at that same distance.
pub proof fn closest_ignores_order<H: Hitable>(
    a: Seq<H>,
    b: Seq<H>,
    ray: Ray,
    t_min: Scalar,
    t_max: Scalar,
    ra: Option<HitRecord<H::Mat>>,
    rb: Option<HitRecord<H::Mat>>,
)
    requires
        forall|i: int| 0 <= i < a.len() ==> b.contains(#[trigger] a[i]),
        forall|i: int| 0 <= i < b.len() ==> a.contains(#[trigger] b[i]),
        closest_of(a, ray, t_min, t_max, ra),
        closest_of(b, ray, t_min, t_max, rb),
    ensures
        ra is None <==> rb is None,
        ra is Some && rb is Some ==> ra->0.t.same_value(rb->0.t),
{
    if let Some(ha) = ra {
        let i = choose|i: int| won_by(a, ray, t_min, t_max, ha, i);
        assert(b.contains(a[i]));
        let j = choose|j: int| 0 <= j < b.len() && b[j] == a[i];
        assert(crosses(b[j], ray, ha));
    }
    if let Some(hb) = rb {
        let i = choose|i: int| won_by(b, ray, t_min, t_max, hb, i);
        assert(a.contains(b[i]));
        let j = choose|j: int| 0 <= j < a.len() && a[j] == b[i];
        assert(crosses(a[j], ray, hb));
    }
}

/// Scans of two scenes that hold the same surfaces, in whatever order, end
/// at the same distance or both with nothing, where every surface reports
/// its nearest crossing.
pub proof fn scan_ignores_order<H: Hitable>(
    a: Seq<H>,
    b: Seq<H>,
    ray: Ray,
    t_min: Scalar,
    t_max: Scalar,
    ra: Option<HitRecord<H::Mat>>,
    rb: Option<HitRecord<H::Mat>>,
)
    requires
        forall|i: int| 0 <= i < a.len() ==> b.contains(#[trigger] a[i]),
        forall|i: int| 0 <= i < b.len() ==> a.contains(#[trigger] b[i]),
        all_report_nearest(a, ray),
        scanned(a, ray, t_min, t_max, a.len(), ra),
        scanned(b, ray, t_min, t_max, b.len(), rb),
    ensures
        ra is None <==> rb is None,
        ra is Some && rb is Some ==> ra->0.t.same_value(rb->0.t),
{
    assert forall|i: int| 0 <= i < b.len() implies reports_nearest(#[trigger] b[i], ray) by {
        assert(a.contains(b[i]));
    }
    scanned_is_closest(a, ray, t_min, t_max, a.len(), ra);
    scanned_is_closest(b, ray, t_min, t_max, b.len(), rb);
    assert(a.take(a.len() as int) =~= a);
    assert(b.take(b.len() as int) =~= b);
    closest_ignores_order(a, b, ray, t_min, t_max, ra, rb);
}

/// The upper end of the window for which the next surface is asked.
pub fn narrowed<M>(closest: &Option<HitRecord<M>>, t_max: Scalar) -> (r: Scalar)
    ensures
        r == narrowed_spec(*closest, t_max),
{
    match closest {
        Some(h) => h.t,
        None => t_max,
    }
}

/// The closest hit after one more surface has answered.
pub fn closer<'mat, M>(
    candidate: Option<HitRecord<'mat, M>>,
    closest: Option<HitRecord<'mat, M>>,
) -> (r: Option<HitRecord<'mat, M>>)
    ensures
        r == closer_spec(candidate, closest),
{
    match candidate {
        Some(h) => Some(h),
        None => closest,
    }
}

/// An ordered scene of surfaces, with a cursor for walking through them.
pub struct HitableList<'a, H: Hitable> {
    hitable: &'a [H],
    index: usize,
}

impl<'a, H: Hitable> HitableList<'a, H> {
    /// The surfaces of the scene, in order.
    pub closed spec fn surfaces(&self) -> Seq<H> {
        self.hitable@
    }

    /// How many surfaces the cursor has passed.
    pub closed spec fn position(&self) -> nat {
        self.index as nat
    }

    /// The scene of `surfaces` with the cursor before the first of them,
    /// for surfaces that are the contents of some slice.
    pub closed spec fn at_start(surfaces: Seq<H>) -> Self {
        HitableList { hitable: choose|s: &'a [H]| s@ == surfaces, index: 0 }
    }

    /// The scene of the surfaces in `hitable`, with the cursor before the
    /// first.
    pub fn new(hitable: &'a [H]) -> (r: Self)
        ensures
            r == Self::at_start(hitable@),
            r.surfaces() == hitable@,
            r.position() == 0,
    {
        proof {
            let chosen = choose|s: &'a [H]| s@ == hitable@;
            assert(chosen@ == hitable@);
            assert(chosen =~= hitable);
        }
        HitableList { hitable, index: 0 }
    }

    /// The closest hit of `ray` on the scene inside the window
    /// `(t_min, t_max)`.
    ///
    /// Every surface is asked in turn, wherever the cursor stands, each for
    /// the window that ends at the closest hit found before it, and the last
    /// record given is returned. Where every surface reports its nearest
    /// crossing, that is the closest crossing of the whole scene, and the
    /// order of the surfaces decides only between surfaces crossed at the
    /// same distance.
    pub fn hit(&self, ray: &Ray, t_min: Scalar, t_max: Scalar) -> (r: Option<
        HitRecord<'a, H::Mat>,
    >)
        ensures
            scanned(self.surfaces(), *ray, t_min, t_max, self.surfaces().len(), r),
            self.surfaces().len() == 0 ==> r is None,
            r matches Some(h) ==> h.t.strictly_between(t_min, t_max) && exists|i: int|
                0 <= i < self.surfaces().len() && crosses(#[trigger] self.surfaces()[i], *ray, h),
            all_report_nearest(self.surfaces(), *ray) ==> closest_of(
                self.surfaces(),
                *ray,
                t_min,
                t_max,
                r,
            ),
    {
        let mut closest: Option<HitRecord<'a, H::Mat>> = None;
        let mut k: usize = 0;
        while k < self.hitable.len()
            invariant
                k <= self.hitable.len(),
                scanned(self.hitable@, *ray, t_min, t_max, k as nat, closest),
            decreases self.hitable.len() - k,
        {
            let ghost before = closest;
            let closest_so_far = narrowed(&closest, t_max);
            let candidate = self.hitable[k].hit(ray, t_min, closest_so_far);
            closest = closer(candidate, closest);
            k = k + 1;
            proof {
                assert(answers(
                    self.hitable@[k - 1],
                    *ray,
                    t_min,
                    narrowed_spec(before, t_max),
                    candidate,
                ));
            }
        }
        proof {
            scanned_is_inside(self.hitable@, *ray, t_min, t_max, k as nat, closest);
            if closest is Some {
                let h = closest->0;
                let i = choose|i: int| 0 <= i < k && crosses(#[trigger] self.hitable@[i], *ray, h);
                assert(crosses(self.surfaces()[i], *ray, h));
            }
            if all_report_nearest(self.hitable@, *ray) {
                scanned_is_closest(self.hitable@, *ray, t_min, t_max, k as nat, closest);
                assert(self.hitable@.take(k as int) =~= self.hitable@);
            }
        }
        closest
    }

    /// The surface under the cursor, which then moves on by one; `None`
    /// once every surface has been handed out.
    pub fn next(&mut self) -> (r: Option<&'a H>)
        ensures
            final(self).surfaces() == old(self).surfaces(),
            old(self).position() < old(self).surfaces().len() ==> {
                &&& r == Some(&old(self).surfaces()[old(self).position() as int])
                &&& final(self).position() == old(self).position() + 1
            },
            old(self).position() >= old(self).surfaces().len() ==> {
                &&& r is None
                &&& final(self).position() == old(self).position()
            },
    {
        if self.index < self.hitable.len() {
            let current = &self.hitable[self.index];
            self.index = self.index + 1;
            Some(current)
        } else {
            None
        }
    }

    /// How many surfaces the cursor has still to hand out.
    pub fn count(self) -> (r: usize)
        ensures
            r == if self.position() < self.surfaces().len() {
                self.surfaces().len() - self.position()
            } else {
                0
            },
    {
        if self.index < self.hitable.len() {
            self.hitable.len() - self.index
        } else {
            0
        }
    }
}

/// A scene is itself a surface: it answers with the closest hit on the
/// surfaces it holds.
impl<'a, H: Hitable> Hitable for HitableList<'a, H> {
    type Mat = H::Mat;

    fn hit(&self, ray: &Ray, t_min: Scalar, t_max: Scalar) -> (r: Option<HitRecord<H::Mat>>)
        ensures
            scanned(self.surfaces(), *ray, t_min, t_max, self.surfaces().len(), r),
    {
        HitableList::hit(self, ray, t_min, t_max)
    }
}

/// A scene reports its nearest crossing where all its surfaces do, so scenes
/// can be surfaces of larger scenes.
pub proof fn scene_reports_nearest<'a, H: Hitable>(scene: HitableList<'a, H>, ray: Ray)
    requires
        all_report_nearest(scene.surfaces(), ray),
    ensures
        reports_nearest(scene, ray),
{
    let surfaces = scene.surfaces();
    let n = surfaces.len();
    assert forall|t_min: Scalar, t_max: Scalar, r: Option<HitRecord<H::Mat>>| #[trigger]
        answers(scene, ray, t_min, t_max, r) implies nearest_inside(
        scene,
        ray,
        t_min,
        t_max,
        r,
    ) by {
        scanned_is_closest(surfaces, ray, t_min, t_max, n, r);
        assert(surfaces.take(n as int) =~= surfaces);
        assert forall|g: HitRecord<H::Mat>| #[trigger]
            crosses(scene, ray, g) && g.t.strictly_between(t_min, t_max) implies r is Some
            && !g.t.lt_spec(r->0.t) by {
            let (lo, hi) = choose|lo: Scalar, hi: Scalar| #[trigger]
                answers(scene, ray, lo, hi, Some(g));
            scanned_is_inside(surfaces, ray, lo, hi, n, Some(g));
            let i = choose|i: int| 0 <= i < n && crosses(#[trigger] surfaces[i], ray, g);
            assert(crosses(surfaces[i], ray, g));
        }
    }
}

impl<'a, H: Hitable> From<&'a Vec<H>> for HitableList<'a, H> {
    /// The scene of the surfaces in `vec`, with the cursor before the first.
    fn from(vec: &'a Vec<H>) -> (r: HitableList<'a, H>)
        ensures
            r.surfaces() == vec@,
            r.position() == 0,
    {
        HitableList::new(vec.as_slice())
    }
}

impl<'a, H: Hitable> vstd::std_specs::convert::FromSpecImpl<&'a Vec<H>> for HitableList<'a, H> {
    open spec fn obeys_from_spec() -> bool {
        true
    }

    open spec fn from_spec(vec: &'a Vec<H>) -> HitableList<'a, H> {
        HitableList::at_start(vec@)
    }
}

} // verus!
