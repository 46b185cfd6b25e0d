//! Materials: how a surface sends on the light that reaches it.
use vstd::prelude::*;
use crate::color::Color;
use crate::hittable::HitRecord;
use crate::ray::Ray;
use crate::sampler::Sampler;
use crate::scalar::{Scalar, ONE_RAW};
use crate::vec3::Vec3;

verus! {

/// `x` is a possible threshold of the reflectance test: a scalar of `[-1, 1)`.
pub open spec fn is_draw(x: Scalar) -> bool {
    -ONE_RAW <= x.raw < ONE_RAW
}

/// How a surface scatters a ray that hits it.
pub trait Material: Sized {
    /// What becomes of the ray `r_in` after the hit `hit`, where `unit` is the
    /// random direction and `draw` the random threshold that the material may
    /// use: the attenuation and the scattered ray, or nothing where the ray
    /// is absorbed.
    spec fn scatter_spec(&self, r_in: Ray, hit: HitRecord<Self>, unit: Vec3, draw: Scalar) -> Option<
        (Color, Ray),
    >;

    /// Scatters with the random direction and threshold given.
    fn scatter_with(&self, r_in: &Ray, hit: &HitRecord<Self>, unit: Vec3, draw: Scalar) -> (res:
        Option<(Color, Ray)>)
        ensures
            res == self.scatter_spec(*r_in, *hit, unit, draw),
    ;

    /// Scatters with a random direction and threshold drawn from `rng`.
    fn scatter(&self, r_in: &Ray, hit: &HitRecord<Self>, rng: &mut Sampler) -> (res: Option<
        (Color, Ray),
    >)
        ensures
            exists|unit: Vec3, draw: Scalar|
                unit.is_unit_sample() && is_draw(draw) && res == #[trigger] self.scatter_spec(
                    *r_in,
                    *hit,
                    unit,
                    draw,
                ),
    ;
}

/// A diffuse surface: it scatters in a random direction about the normal and
/// never absorbs.
pub struct Lambertian {
    pub albedo: Color,
}

impl Lambertian {
    pub fn new(albedo: Color) -> (r: Self)
        ensures
            r.albedo == albedo,
    {
        Lambertian { albedo }
    }

    /// The direction of the scattered ray: the normal plus the random
    /// direction, or the normal alone where that sum is near zero.
    pub open spec fn direction_spec(normal: Vec3, unit: Vec3) -> Vec3 {
        if normal.add_spec(unit).near_zero_spec() {
            normal
        } else {
            normal.add_spec(unit)
        }
    }

    /// The scattered ray has a direction: where the normal is not near zero,
    /// the scattered direction is not near zero either, and so is not the
    /// zero vector. It is the sum of the normal and the random direction
    /// unless every component of that sum is nearer to zero than the
    /// threshold.
    pub proof fn direction_is_not_near_zero(normal: Vec3, unit: Vec3)
        requires
            !normal.near_zero_spec(),
        ensures
            !Lambertian::direction_spec(normal, unit).near_zero_spec(),
            Lambertian::direction_spec(normal, unit) != Vec3(
                Scalar { raw: 0 },
                Scalar { raw: 0 },
                Scalar { raw: 0 },
            ),
            !normal.add_spec(unit).near_zero_spec() ==> Lambertian::direction_spec(normal, unit)
                == normal.add_spec(unit),
    {
    }
}

impl Material for Lambertian {
    open spec fn scatter_spec(
        &self,
        r_in: Ray,
        hit: HitRecord<Self>,
        unit: Vec3,
        draw: Scalar,
    ) -> Option<(Color, Ray)> {
        Some(
            (
                self.albedo,
                Ray { direction: Lambertian::direction_spec(hit.normal, unit), origin: hit.p },
            ),
        )
    }

    fn scatter_with(&self, r_in: &Ray, hit: &HitRecord<Self>, unit: Vec3, draw: Scalar) -> (res:
        Option<(Color, Ray)>) {
        let sum = hit.normal.add(unit);
        let scatter_dir = if sum.near_zero() {
            hit.normal
        } else {
            sum
        };
        Some((self.albedo, Ray::new(scatter_dir, hit.p)))
    }

    fn scatter(&self, r_in: &Ray, hit: &HitRecord<Self>, rng: &mut Sampler) -> (res: Option<
        (Color, Ray),
    >) {
        let unit = Vec3::random_unit_vector(rng);
        let res = self.scatter_with(r_in, hit, unit, Scalar::zero());
        assert(is_draw(Scalar { raw: 0 }));
        res
    }
}

/// A mirror, more or less polished: it reflects, and blurs the reflection by
/// `fuzz`, which lies between zero and one.
pub struct Metal {
    pub albedo: Color,
    pub fuzz: Scalar,
}

impl Metal {
    /// The fuzz that a metal is made with: `fuzz` brought into `[0, 1]`.
    pub open spec fn fuzz_spec(fuzz: Scalar) -> Scalar {
        if fuzz.raw > ONE_RAW {
            Scalar { raw: ONE_RAW }
        } else if fuzz.raw < 0 {
            Scalar { raw: 0 }
        } else {
            fuzz
        }
    }

    /// The direction of the reflected ray: the mirror image of the incoming
    /// direction, plus `fuzz` times the random direction.
    pub open spec fn direction_spec(&self, incoming: Vec3, normal: Vec3, unit: Vec3) -> Vec3 {
        incoming.reflect_spec(normal).add_spec(unit.scale_spec(self.fuzz))
    }

    pub fn new(albedo: Color, fuzz: Scalar) -> (r: Self)
        ensures
            r.albedo == albedo,
            r.fuzz == Metal::fuzz_spec(fuzz),
            0 <= r.fuzz.raw <= ONE_RAW,
    {
        Metal {
            albedo,
            fuzz: if fuzz.raw > ONE_RAW {
                Scalar::one()
            } else if fuzz.raw < 0 {
                Scalar::zero()
            } else {
                fuzz
            },
        }
    }
}

impl Material for Metal {
    /// The ray is absorbed where the reflected direction does not leave the
    /// surface: where its dot product with the normal is not positive.
    open spec fn scatter_spec(
        &self,
        r_in: Ray,
        hit: HitRecord<Self>,
        unit: Vec3,
        draw: Scalar,
    ) -> Option<(Color, Ray)> {
        let direction = self.direction_spec(r_in.direction, hit.normal, unit);
        if direction.dot_spec(hit.normal).raw > 0 {
            Some((self.albedo, Ray { direction, origin: hit.p }))
        } else {
            None
        }
    }

    fn scatter_with(&self, r_in: &Ray, hit: &HitRecord<Self>, unit: Vec3, draw: Scalar) -> (res:
        Option<(Color, Ray)>) {
        let reflection_dir = r_in.direction.reflect(&hit.normal).add(unit.scale(self.fuzz));
        if reflection_dir.dot(&hit.normal).raw > 0 {
            Some((self.albedo, Ray::new(reflection_dir, hit.p)))
        } else {
            None
        }
    }

    fn scatter(&self, r_in: &Ray, hit: &HitRecord<Self>, rng: &mut Sampler) -> (res: Option<
        (Color, Ray),
    >) {
        let unit = Vec3::random_unit_vector(rng);
        let res = self.scatter_with(r_in, hit, unit, Scalar::zero());
        assert(is_draw(Scalar { raw: 0 }));
        res
    }
}

/// The fifth power, multiplied up from the left.
pub open spec fn fifth_power_spec(x: Scalar) -> Scalar {
    x.mul_spec(x).mul_spec(x).mul_spec(x).mul_spec(x)
}

/// Schlick's approximation of the share of light that a surface with the
/// given refractive index reflects at the given cosine of the angle of
/// incidence: `r0 + (1 - r0) (1 - cosine)^5`, where `r0` is the square of
/// `(1 - index) / (1 + index)`.
pub open spec fn reflectance_spec(cosine: Scalar, refraction_index: Scalar) -> Scalar {
    let one = Scalar::of_int(1);
    let r0 = one.sub_spec(refraction_index).div_spec(one.add_spec(refraction_index));
    let r02 = r0.mul_spec(r0);
    r02.add_spec(one.sub_spec(r02).mul_spec(fifth_power_spec(one.sub_spec(cosine))))
}

pub fn reflectance(cosine: Scalar, refraction_index: Scalar) -> (r: Scalar)
    ensures
        r == reflectance_spec(cosine, refraction_index),
{
    let one = Scalar::from_int(1);
    let r0 = one.sub(refraction_index).div(one.add(refraction_index));
    let r02 = r0.mul(r0);
    let x = one.sub(cosine);
    r02.add(one.sub(r02).mul(x.mul(x).mul(x).mul(x).mul(x)))
}

/// A clear material such as glass or water: it absorbs nothing, and either
/// reflects or refracts.
pub struct Dielectric {
    pub refractive_index: Scalar,
    pub attenuation: Color,
}

impl Dielectric {
    /// The ratio of the refractive indices on the two sides of the surface,
    /// in the order in which the ray passes them: the inverse of the index of
    /// the material for a ray that enters it, the index for one that leaves.
    pub open spec fn ratio_spec(&self, front_face: bool) -> Scalar {
        if front_face {
            Scalar::of_int(1).div_spec(self.refractive_index)
        } else {
            self.refractive_index
        }
    }

    /// The sine that belongs to a cosine: the square root of `1 - cos^2`.
    pub open spec fn sin_theta_spec(cos_theta: Scalar) -> Scalar {
        Scalar::of_int(1).sub_spec(cos_theta.mul_spec(cos_theta)).sqrt_spec()
    }

    /// Whether the ray is reflected: it is where Snell's law has no solution,
    /// and where the reflectance exceeds the threshold drawn.
    pub open spec fn reflects_spec(&self, unit_dir: Vec3, hit: HitRecord<Self>, draw: Scalar) -> bool {
        let cos_theta = unit_dir.cos_theta_spec(hit.normal);
        let cannot_refract = self.ratio_spec(hit.front_face).mul_spec(
            Dielectric::sin_theta_spec(cos_theta),
        ).raw > ONE_RAW;
        cannot_refract || reflectance_spec(cos_theta, self.refractive_index).raw > draw.raw
    }

    pub fn new(refractive_index: Scalar) -> (r: Self)
        ensures
            r.refractive_index == refractive_index,
            r.attenuation == Color::white_spec(),
    {
        Dielectric { refractive_index, attenuation: Color::white() }
    }
}

impl Material for Dielectric {
    open spec fn scatter_spec(
        &self,
        r_in: Ray,
        hit: HitRecord<Self>,
        unit: Vec3,
        draw: Scalar,
    ) -> Option<(Color, Ray)> {
        let unit_dir = r_in.direction.unit_vector_spec();
        let direction = if self.reflects_spec(unit_dir, hit, draw) {
            unit_dir.reflect_spec(hit.normal)
        } else {
            unit_dir.refract_spec(hit.normal, self.ratio_spec(hit.front_face))
        };
        Some((self.attenuation, Ray { direction, origin: hit.p }))
    }

    fn scatter_with(&self, r_in: &Ray, hit: &HitRecord<Self>, unit: Vec3, draw: Scalar) -> (res:
        Option<(Color, Ray)>) {
        let unit_r_in_dir = r_in.direction.unit_vector();
        let refractive_index = if hit.front_face {
            Scalar::from_int(1).div(self.refractive_index)
        } else {
            self.refractive_index
        };

        let cos_theta = unit_r_in_dir.neg().dot(&hit.normal).min(Scalar::from_int(1));
        let sin_theta = Scalar::from_int(1).sub(cos_theta.mul(cos_theta)).sqrt();

        let cannot_refract = refractive_index.mul(sin_theta).raw > ONE_RAW;

        let scatter = if cannot_refract || reflectance(cos_theta, self.refractive_index).raw
            > draw.raw {
            unit_r_in_dir.reflect(&hit.normal)
        } else {
            unit_r_in_dir.refract(&hit.normal, refractive_index)
        };

        Some((self.attenuation, Ray::new(scatter, hit.p)))
    }

    fn scatter(&self, r_in: &Ray, hit: &HitRecord<Self>, rng: &mut Sampler) -> (res: Option<
        (Color, Ray),
    >) {
        let draw = rng.uniform(Scalar::from_int(-1), Scalar::from_int(1));
        let unit = Vec3(Scalar::from_int(1), Scalar::zero(), Scalar::zero());
        proof {
            crate::vec3::unit_samples_exist();
        }
        let res = self.scatter_with(r_in, hit, unit, draw);
        let ghost witness = choose|u: Vec3| u.is_unit_sample();
        assert(res == self.scatter_spec(*r_in, *hit, witness, draw));
        res
    }
}

/// Any of the three materials, so that one scene can hold surfaces of
/// different kinds.
pub enum AnyMaterial {
    Lambertian(Lambertian),
    Metal(Metal),
    Dielectric(Dielectric),
}

/// The record `hit` with the material `material` in place of its own.
pub open spec fn with_material_spec<'a, 'b, M, N>(hit: HitRecord<'a, M>, material: &'b N) -> HitRecord<
    'b,
    N,
> {
    HitRecord { p: hit.p, normal: hit.normal, t: hit.t, front_face: hit.front_face, material }
}

/// The record `hit` with the material `material` in place of its own.
pub fn with_material<'a, 'b, M, N>(hit: &HitRecord<'a, M>, material: &'b N) -> (r: HitRecord<'b, N>)
    ensures
        r == with_material_spec(*hit, material),
{
    HitRecord { p: hit.p, normal: hit.normal, t: hit.t, front_face: hit.front_face, material }
}

impl Material for AnyMaterial {
    /// What the material inside makes of the hit.
    open spec fn scatter_spec(
        &self,
        r_in: Ray,
        hit: HitRecord<Self>,
        unit: Vec3,
        draw: Scalar,
    ) -> Option<(Color, Ray)> {
        match self {
            AnyMaterial::Lambertian(m) => m.scatter_spec(
                r_in,
                with_material_spec(hit, m),
                unit,
                draw,
            ),
            AnyMaterial::Metal(m) => m.scatter_spec(r_in, with_material_spec(hit, m), unit, draw),
            AnyMaterial::Dielectric(m) => m.scatter_spec(
                r_in,
                with_material_spec(hit, m),
                unit,
                draw,
            ),
        }
    }

    fn scatter_with(&self, r_in: &Ray, hit: &HitRecord<Self>, unit: Vec3, draw: Scalar) -> (res:
        Option<(Color, Ray)>) {
        match self {
            AnyMaterial::Lambertian(m) => m.scatter_with(r_in, &with_material(hit, m), unit, draw),
            AnyMaterial::Metal(m) => m.scatter_with(r_in, &with_material(hit, m), unit, draw),
            AnyMaterial::Dielectric(m) => m.scatter_with(r_in, &with_material(hit, m), unit, draw),
        }
    }

    fn scatter(&self, r_in: &Ray, hit: &HitRecord<Self>, rng: &mut Sampler) -> (res: Option<
        (Color, Ray),
    >) {
        match self {
            AnyMaterial::Lambertian(m) => {
                let res = m.scatter(r_in, &with_material(hit, m), rng);
                let ghost (unit, draw) = choose|unit: Vec3, draw: Scalar|
                    unit.is_unit_sample() && is_draw(draw) && res == #[trigger] m.scatter_spec(
                        *r_in,
                        with_material_spec(*hit, m),
                        unit,
                        draw,
                    );
                assert(res == self.scatter_spec(*r_in, *hit, unit, draw));
                res
            },
            AnyMaterial::Metal(m) => {
                let res = m.scatter(r_in, &with_material(hit, m), rng);
                let ghost (unit, draw) = choose|unit: Vec3, draw: Scalar|
                    unit.is_unit_sample() && is_draw(draw) && res == #[trigger] m.scatter_spec(
                        *r_in,
                        with_material_spec(*hit, m),
                        unit,
                        draw,
                    );
                assert(res == self.scatter_spec(*r_in, *hit, unit, draw));
                res
            },
            AnyMaterial::Dielectric(m) => {
                let res = m.scatter(r_in, &with_material(hit, m), rng);
                let ghost (unit, draw) = choose|unit: Vec3, draw: Scalar|
                    unit.is_unit_sample() && is_draw(draw) && res == #[trigger] m.scatter_spec(
                        *r_in,
                        with_material_spec(*hit, m),
                        unit,
                        draw,
                    );
                assert(res == self.scatter_spec(*r_in, *hit, unit, draw));
                res
            },
        }
    }
}

} // verus!
