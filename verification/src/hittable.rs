//! What a ray can hit: the record of a hit, the surfaces that produce one, and
//! scenes made of such surfaces.
use vstd::prelude::*;
use core::ops::Range;
use crate::material::Material;
use crate::ray::Ray;
use crate::scalar::{quotient, Scalar, MIN_RAW, ONE_RAW};
use crate::vec3::{Point3, Vec3};

verus! {

/// Where and how a ray met a surface.
pub struct HitRecord<'a, M> {
    /// The point that was hit.
    pub p: Point3,
    /// The surface normal at that point, turned against the incoming ray.
    pub normal: Vec3,
    /// The parameter of the ray at that point.
    pub t: Scalar,
    /// Whether the ray came from outside the surface.
    pub front_face: bool,
    /// The material of the surface.
    pub material: &'a M,
}

/// `t` lies strictly between the ends of the interval.
pub open spec fn surrounds(interval: Range<Scalar>, t: Scalar) -> bool {
    interval.start.raw < t.raw < interval.end.raw
}

/// The hit `h`, if it comes before `end`.
pub open spec fn before<'a, M>(h: Option<HitRecord<'a, M>>, end: Scalar) -> Option<
    HitRecord<'a, M>,
> {
    match h {
        Some(x) => if x.t.raw < end.raw {
            h
        } else {
            None
        },
        None => None,
    }
}

/// The nearer of two hits; the first where neither is nearer.
pub open spec fn nearer<'a, M>(
    first: Option<HitRecord<'a, M>>,
    second: Option<HitRecord<'a, M>>,
) -> Option<HitRecord<'a, M>> {
    match (first, second) {
        (None, _) => second,
        (Some(a), Some(b)) => if b.t.raw < a.t.raw {
            second
        } else {
            first
        },
        (Some(_), None) => first,
    }
}

impl<'a, M> HitRecord<'a, M> {
    /// The record of a hit of the ray `r` at parameter `t` in the point `p`,
    /// where the surface has the outward normal `normal`. The ray comes from
    /// outside if it runs against the outward normal; the normal that is
    /// stored is turned so that the ray runs against it in either case.
    pub open spec fn new_spec(
        p: Point3,
        normal: Vec3,
        t: Scalar,
        r: Ray,
        material: &'a M,
    ) -> HitRecord<'a, M> {
        let front_face = r.direction.dot_spec(normal).raw < 0;
        HitRecord {
            p,
            normal: if front_face {
                normal
            } else {
                normal.neg_spec()
            },
            t,
            front_face,
            material,
        }
    }

    pub fn new(p: Point3, normal: Vec3, t: Scalar, r: &Ray, material: &'a M) -> (h: Self)
        ensures
            h == Self::new_spec(p, normal, t, *r, material),
    {
        let front_face = r.direction.dot(&normal).raw < 0;
        let normal = if front_face {
            normal
        } else {
            normal.neg()
        };
        HitRecord { p, normal, t, front_face, material }
    }
}

/// The normal of a hit record never points along the ray: its dot product
/// with the direction of the ray is not positive, whichever side the ray
/// came from.
pub proof fn normal_faces_the_ray<'a, M>(
    p: Point3,
    normal: Vec3,
    t: Scalar,
    r: Ray,
    material: &'a M,
)
    requires
        normal.0.raw >= MIN_RAW,
        normal.1.raw >= MIN_RAW,
        normal.2.raw >= MIN_RAW,
    ensures
        r.direction.dot_spec(HitRecord::new_spec(p, normal, t, r, material).normal).raw <= 0,
{
    let d = r.direction;
    let exact = d.0.raw * normal.0.raw + d.1.raw * normal.1.raw + d.2.raw * normal.2.raw;
    let turned = d.0.raw * (-normal.0.raw) + d.1.raw * (-normal.1.raw) + d.2.raw * (-normal.2.raw);
    assert(turned == -exact) by (nonlinear_arith)
        requires
            exact == d.0.raw * normal.0.raw + d.1.raw * normal.1.raw + d.2.raw * normal.2.raw,
            turned == d.0.raw * (-normal.0.raw) + d.1.raw * (-normal.1.raw) + d.2.raw * (
            -normal.2.raw),
    ;
    assert(quotient(-exact, ONE_RAW as int) == -quotient(exact, ONE_RAW as int));
}

/// A surface that rays can be tested against.
pub trait Hittable {
    /// The material of the surface.
    type Mat: Material;

    /// The hit of the ray `r` on this surface with a parameter inside
    /// `interval`, if there is one.
    spec fn hit_spec(&self, r: Ray, interval: Range<Scalar>) -> Option<HitRecord<Self::Mat>>;

    /// The parameter of a hit lies strictly inside the interval searched.
    proof fn hit_is_within(&self, r: Ray, interval: Range<Scalar>)
        ensures
            self.hit_spec(r, interval) matches Some(h) ==> surrounds(interval, h.t),
    ;

    /// Lowering the end of the interval keeps the hit where it still lies
    /// inside, and finds no other.
    proof fn hit_narrows(&self, r: Ray, interval: Range<Scalar>, end: Scalar)
        requires
            end.raw <= interval.end.raw,
        ensures
            self.hit_spec(r, interval.start..end) == before(self.hit_spec(r, interval), end),
    ;

    fn hit(&self, r: &Ray, ray_interval: &Range<Scalar>) -> (res: Option<HitRecord<Self::Mat>>)
        ensures
            res == self.hit_spec(*r, *ray_interval),
    ;
}

/// A scene: surfaces of one kind, in the order in which they were added.
pub struct HittableList<H: Hittable> {
    pub objects: Vec<H>,
}

impl<H: Hittable> Default for HittableList<H> {
    fn default() -> (r: Self)
        ensures
            r.objects@.len() == 0,
    {
        HittableList { objects: Vec::new() }
    }
}

impl<H: Hittable> HittableList<H> {
    /// The nearest hit of the ray among the first `n` surfaces, each searched
    /// over the whole interval. Of several hits at the nearest parameter the
    /// one on the surface added first is taken.
    pub open spec fn closest_spec(&self, r: Ray, interval: Range<Scalar>, n: nat) -> Option<
        HitRecord<H::Mat>,
    >
        decreases n,
    {
        if n == 0 {
            None
        } else {
            nearer(
                self.closest_spec(r, interval, (n - 1) as nat),
                self.objects@[n - 1].hit_spec(r, interval),
            )
        }
    }

    pub fn push(&mut self, value: H)
        ensures
            final(self).objects@ == old(self).objects@.push(value),
    {
        self.objects.push(value);
    }

    pub fn clear(&mut self)
        ensures
            final(self).objects@ == Seq::<H>::empty(),
    {
        self.objects.clear();
    }

    pub fn len(&self) -> (n: usize)
        ensures
            n == self.objects@.len(),
    {
        self.objects.len()
    }

    /// The nearest hit lies strictly inside the interval.
    pub proof fn closest_is_within(&self, r: Ray, interval: Range<Scalar>, n: nat)
        requires
            n <= self.objects@.len(),
        ensures
            self.closest_spec(r, interval, n) matches Some(h) ==> surrounds(interval, h.t),
        decreases n,
    {
        if n > 0 {
            self.closest_is_within(r, interval, (n - 1) as nat);
            self.objects@[n - 1].hit_is_within(r, interval);
        }
    }

    /// Lowering the end of the interval keeps the nearest hit where it still
    /// lies inside, and finds no other.
    pub proof fn closest_narrows(&self, r: Ray, interval: Range<Scalar>, end: Scalar, n: nat)
        requires
            n <= self.objects@.len(),
            end.raw <= interval.end.raw,
        ensures
            self.closest_spec(r, interval.start..end, n) == before(
                self.closest_spec(r, interval, n),
                end,
            ),
        decreases n,
    {
        if n > 0 {
            self.closest_narrows(r, interval, end, (n - 1) as nat);
            self.objects@[n - 1].hit_narrows(r, interval, end);
        }
    }

    /// No surface is hit before the nearest hit: whenever one of the first
    /// `n` surfaces is hit inside the interval, there is a nearest hit, and
    /// its parameter does not exceed that of the hit on the surface.
    pub proof fn closest_is_least(&self, r: Ray, interval: Range<Scalar>, n: nat, k: int)
        requires
            0 <= k < n <= self.objects@.len(),
        ensures
            self.objects@[k].hit_spec(r, interval) matches Some(h) ==> (self.closest_spec(
                r,
                interval,
                n,
            ) matches Some(b) && b.t.raw <= h.t.raw),
        decreases n,
    {
        if k < n - 1 {
            self.closest_is_least(r, interval, (n - 1) as nat, k);
        }
    }

    /// The nearest hit is the hit on one of the surfaces, and on the first of
    /// those that are hit at its parameter.
    pub proof fn closest_is_first(&self, r: Ray, interval: Range<Scalar>, n: nat) -> (k: int)
        requires
            n <= self.objects@.len(),
            self.closest_spec(r, interval, n) is Some,
        ensures
            0 <= k < n,
            self.objects@[k].hit_spec(r, interval) == self.closest_spec(r, interval, n),
            forall|j: int|
                0 <= j < k ==> (#[trigger] self.objects@[j].hit_spec(r, interval) matches Some(h)
                    ==> h.t.raw > self.closest_spec(r, interval, n)->Some_0.t.raw),
        decreases n,
    {
        let earlier = self.closest_spec(r, interval, (n - 1) as nat);
        let last = self.objects@[n - 1].hit_spec(r, interval);
        if self.closest_spec(r, interval, n) == earlier && earlier is Some {
            self.closest_is_first(r, interval, (n - 1) as nat)
        } else {
            assert forall|j: int| 0 <= j < n - 1 implies (#[trigger] self.objects@[j].hit_spec(
                r,
                interval,
            ) matches Some(h) ==> h.t.raw > last->Some_0.t.raw) by {
                self.closest_is_least(r, interval, (n - 1) as nat, j);
            }
            n - 1
        }
    }
}

/// The order in which surfaces were added to a scene does not change the
/// parameter of its nearest hit: two scenes of the same surfaces are hit
/// by the same rays, and at the same parameter.
pub proof fn nearest_hit_is_order_free<H: Hittable>(
    a: &HittableList<H>,
    b: &HittableList<H>,
    r: Ray,
    interval: Range<Scalar>,
)
    requires
        forall|x: H| a.objects@.contains(x) <==> b.objects@.contains(x),
    ensures
        a.hit_spec(r, interval) is Some <==> b.hit_spec(r, interval) is Some,
        a.hit_spec(r, interval) is Some ==> a.hit_spec(r, interval)->Some_0.t == b.hit_spec(
            r,
            interval,
        )->Some_0.t,
{
    nearest_hit_is_no_later(a, b, r, interval);
    nearest_hit_is_no_later(b, a, r, interval);
}

/// A scene that holds every surface of another is hit by every ray that
/// hits the other, and no later.
pub proof fn nearest_hit_is_no_later<H: Hittable>(
    a: &HittableList<H>,
    b: &HittableList<H>,
    r: Ray,
    interval: Range<Scalar>,
)
    requires
        forall|x: H| a.objects@.contains(x) ==> b.objects@.contains(x),
    ensures
        a.hit_spec(r, interval) matches Some(x) ==> (b.hit_spec(r, interval) matches Some(y)
            && y.t.raw <= x.t.raw),
{
    if a.hit_spec(r, interval) is Some {
        let k = a.closest_is_first(r, interval, a.objects@.len());
        let surface = a.objects@[k];
        assert(a.objects@.contains(surface));
        assert(b.objects@.contains(surface));
        let m = choose|m: int| 0 <= m < b.objects@.len() && b.objects@[m] == surface;
        b.closest_is_least(r, interval, b.objects@.len(), m);
    }
}

impl<H: Hittable> Hittable for HittableList<H> {
    type Mat = H::Mat;

    /// The nearest hit among all surfaces of the scene.
    open spec fn hit_spec(&self, r: Ray, interval: Range<Scalar>) -> Option<HitRecord<H::Mat>> {
        self.closest_spec(r, interval, self.objects@.len())
    }

    proof fn hit_is_within(&self, r: Ray, interval: Range<Scalar>) {
        self.closest_is_within(r, interval, self.objects@.len());
    }

    proof fn hit_narrows(&self, r: Ray, interval: Range<Scalar>, end: Scalar) {
        self.closest_narrows(r, interval, end, self.objects@.len());
    }

    /// Searches the surfaces in order, each only up to the nearest hit found
    /// so far.
    fn hit(&self, r: &Ray, ray_interval: &Range<Scalar>) -> (res: Option<HitRecord<H::Mat>>)
        ensures
            forall|k: int|
                0 <= k < self.objects@.len() ==> (#[trigger] self.objects@[k].hit_spec(
                    *r,
                    *ray_interval,
                ) matches Some(h) ==> (res matches Some(b) && b.t.raw <= h.t.raw)),
    {
        let mut hit_record: Option<HitRecord<H::Mat>> = None;
        let mut closest_so_far = ray_interval.end;
        let mut i: usize = 0;
        while i < self.objects.len()
            invariant
                i <= self.objects@.len(),
                hit_record == self.closest_spec(*r, *ray_interval, i as nat),
                closest_so_far == match hit_record {
                    Some(h) => h.t,
                    None => ray_interval.end,
                },
            decreases self.objects@.len() - i,
        {
            proof {
                self.closest_is_within(*r, *ray_interval, i as nat);
                self.objects@[i as int].hit_is_within(*r, *ray_interval);
                self.objects@[i as int].hit_narrows(*r, *ray_interval, closest_so_far);
            }
            let searched = Range { start: ray_interval.start, end: closest_so_far };
            match self.objects[i].hit(r, &searched) {
                Some(x) => {
                    if x.t.raw < closest_so_far.raw {
                        closest_so_far = x.t;
                        hit_record = Some(x);
                    }
                },
                None => {},
            }
            i = i + 1;
        }
        proof {
            assert forall|k: int| 0 <= k < self.objects@.len() implies (
            #[trigger] self.objects@[k].hit_spec(*r, *ray_interval) matches Some(h) ==> (
            hit_record matches Some(b) && b.t.raw <= h.t.raw)) by {
                self.closest_is_least(*r, *ray_interval, self.objects@.len(), k);
            }
        }
        hit_record
    }
}

} // verus!
