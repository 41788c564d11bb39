//! Cook-Torrance microfacet shading.
//!
//! The evaluator combines an ambient term, a Lambertian diffuse term and a
//! microfacet specular term built from a Schlick Fresnel factor, a Gaussian
//! facet distribution and the Cook-Torrance geometric attenuation.  Two
//! deliberate policies close the model's numerical gaps:
//!
//! * the diffuse factor is `max(dot(n,l), 0)`, so a light behind the
//!   surface contributes nothing instead of subtracting light;
//! * whenever `dot(i,h)`, `dot(n,i)`, `dot(n,l)` or the product
//!   `dot(n,i)*dot(n,l)` is zero or negative — grazing angles, a view
//!   direction opposite the light, or a degenerate zero half-vector — the
//!   whole specular term is dropped, so no division can blow up.
//!
//! Arc cosine and the decaying exponential have no exact fixed-point form;
//! they are evaluated by the polynomial approximations `acos_fx` and
//! `exp_neg`, whose contracts state the exact value computed.  Both are
//! exact where the laws below need them: `acos` of 1 is 0, and `exp_neg`
//! of 0 is 1.

use vstd::prelude::*;

use crate::fixed::FX_MAX;
use crate::fixed::FX_ONE;
use crate::fixed::Fx;
use crate::fixed::fx_add;
use crate::fixed::fx_add_raw;
use crate::fixed::fx_div;
use crate::fixed::fx_div_raw;
use crate::fixed::fx_max;
use crate::fixed::fx_max_raw;
use crate::fixed::fx_min;
use crate::fixed::fx_min_raw;
use crate::fixed::fx_mul;
use crate::fixed::fx_mul_raw;
use crate::fixed::fx_sqrt;
use crate::fixed::fx_sqrt_raw;
use crate::fixed::fx_sub;
use crate::fixed::fx_sub_raw;
use crate::fixed::lemma_fx_mul_nonneg;
use crate::fixed::lemma_fx_mul_one;
use crate::fixed::lemma_fx_mul_zero;
use crate::fixed::lemma_isqrt_lower;
use crate::fixed::lemma_mul_abs_sign;
use crate::fixed::abs_i;
use crate::fixed::clip;
use crate::fixed::tdiv;
use crate::material::Material;
use crate::vec3::Vec3;
use crate::vec3::vec_add_spec;
use crate::vec3::vec_dot_spec;
use crate::vec3::vec_norm2_mag;
use crate::vec3::vec_scale_spec;
use crate::vec3::vec_unit_spec;
use crate::vec3::vec_zero_spec;

verus! {

/// Pi on the raw fixed-point scale.
pub const FX_PI: i64 = 13493037705;

pub const ACOS_A0: i64 = 6746228827;

pub const ACOS_A1: i64 = -911024411;

pub const ACOS_A2: i64 = 318948566;

pub const ACOS_A3: i64 = -80441731;

pub const EXP_HALF: i64 = 2147483648;

pub const EXP_SIXTH: i64 = 715827883;

pub const EXP_24TH: i64 = 178956971;

/// Raw value of the cubic polynomial factor of the arc cosine
/// approximation, evaluated by Horner's rule.
pub open spec fn acos_poly_raw(x: int) -> int {
    fx_add_raw(
        ACOS_A0 as int,
        fx_mul_raw(
            x,
            fx_add_raw(
                ACOS_A1 as int,
                fx_mul_raw(x, fx_add_raw(ACOS_A2 as int, fx_mul_raw(x, ACOS_A3 as int))),
            ),
        ),
    )
}

/// Raw value of the arc cosine approximation: the argument is clamped to
/// [-1, 1]; nonnegative arguments use `sqrt(1-x) * poly(x)`, negative ones
/// mirror through `pi - acos(-x)`.  Exact at 1: `acos_raw(1) == 0`.
pub open spec fn acos_raw(x: int) -> int {
    let c = fx_min_raw(fx_max_raw(x, -(FX_ONE as int)), FX_ONE as int);
    if c >= 0 {
        fx_mul_raw(fx_sqrt_raw(fx_sub_raw(FX_ONE as int, c)), acos_poly_raw(c))
    } else {
        fx_sub_raw(
            FX_PI as int,
            fx_mul_raw(fx_sqrt_raw(fx_sub_raw(FX_ONE as int, -c)), acos_poly_raw(-c)),
        )
    }
}

/// Raw value of the decaying exponential approximation
/// `1 / (1 + x + x^2/2 + x^3/6 + x^4/24)`, for nonnegative `x`.
/// Exact at 0: `exp_neg_raw(0) == 1`.
pub open spec fn exp_neg_raw(x: int) -> int {
    let t2 = fx_mul_raw(x, x);
    let t3 = fx_mul_raw(t2, x);
    let t4 = fx_mul_raw(t3, x);
    let den = fx_add_raw(
        fx_add_raw(
            fx_add_raw(fx_add_raw(FX_ONE as int, x), fx_mul_raw(t2, EXP_HALF as int)),
            fx_mul_raw(t3, EXP_SIXTH as int),
        ),
        fx_mul_raw(t4, EXP_24TH as int),
    );
    fx_div_raw(FX_ONE as int, den)
}

/// Raw value of the Schlick base reflectance `((1 - ior) / (1 + ior))^2`.
pub open spec fn f0_raw(ior: int) -> int {
    let r = fx_div_raw(fx_sub_raw(FX_ONE as int, ior), fx_add_raw(FX_ONE as int, ior));
    fx_mul_raw(r, r)
}

/// Raw value of the Schlick Fresnel approximation
/// `f0 + (1 - f0) * (1 - dot(i,h))^5`, with the base `1 - dot(i,h)`
/// clamped to be nonnegative before it is raised to the fifth power.
pub open spec fn fresnel_raw(ior: int, v_dot_h: int) -> int {
    let f0 = f0_raw(ior);
    let base = fx_max_raw(fx_sub_raw(FX_ONE as int, v_dot_h), 0);
    let b2 = fx_mul_raw(base, base);
    let b4 = fx_mul_raw(b2, b2);
    let p5 = fx_mul_raw(b4, base);
    fx_add_raw(fx_mul_raw(p5, fx_sub_raw(FX_ONE as int, f0)), f0)
}

/// Arc cosine approximation (see `acos_raw`).
pub fn acos_fx(x: Fx) -> (r: Fx)
    ensures
        r@ == acos_raw(x@),
{
    let c: Fx = fx_min(fx_max(x, Fx { raw: -FX_ONE }), Fx { raw: FX_ONE });
    if c.raw >= 0 {
        fx_mul(fx_sqrt(fx_sub(Fx { raw: FX_ONE }, c)), acos_poly(c))
    } else {
        let nc: Fx = fx_sub(Fx { raw: 0 }, c);
        fx_sub(Fx { raw: FX_PI }, fx_mul(fx_sqrt(fx_sub(Fx { raw: FX_ONE }, nc)), acos_poly(nc)))
    }
}

fn acos_poly(c: Fx) -> (r: Fx)
    ensures
        r@ == acos_poly_raw(c@),
{
    fx_add(
        Fx { raw: ACOS_A0 },
        fx_mul(
            c,
            fx_add(Fx { raw: ACOS_A1 }, fx_mul(c, fx_add(Fx { raw: ACOS_A2 }, fx_mul(c, Fx { raw: ACOS_A3 })))),
        ),
    )
}

/// Decaying exponential approximation (see `exp_neg_raw`).
pub fn exp_neg(x: Fx) -> (r: Fx)
    requires
        x@ >= 0,
    ensures
        r@ == exp_neg_raw(x@),
{
    let t2: Fx = fx_mul(x, x);
    let t3: Fx = fx_mul(t2, x);
    let t4: Fx = fx_mul(t3, x);
    proof {
        lemma_fx_mul_nonneg(x@, x@);
        lemma_fx_mul_nonneg(t2@, x@);
        lemma_fx_mul_nonneg(t3@, x@);
        lemma_fx_mul_nonneg(t2@, EXP_HALF as int);
        lemma_fx_mul_nonneg(t3@, EXP_SIXTH as int);
        lemma_fx_mul_nonneg(t4@, EXP_24TH as int);
    }
    let den: Fx = fx_add(
        fx_add(
            fx_add(fx_add(Fx { raw: FX_ONE }, x), fx_mul(t2, Fx { raw: EXP_HALF })),
            fx_mul(t3, Fx { raw: EXP_SIXTH }),
        ),
        fx_mul(t4, Fx { raw: EXP_24TH }),
    );
    proof {
        assert(den@ > 0);
    }
    fx_div(Fx { raw: FX_ONE }, den)
}

/// Schlick Fresnel approximation (see `fresnel_raw`).
pub fn fresnel(ior: Fx, v_dot_h: Fx) -> (r: Fx)
    requires
        ior@ > 0,
    ensures
        r@ == fresnel_raw(ior@, v_dot_h@),
{
    let den: Fx = fx_add(Fx { raw: FX_ONE }, ior);
    proof {
        assert(den@ > 0);
    }
    let r0: Fx = fx_div(fx_sub(Fx { raw: FX_ONE }, ior), den);
    let f0: Fx = fx_mul(r0, r0);
    let base: Fx = fx_max(fx_sub(Fx { raw: FX_ONE }, v_dot_h), Fx { raw: 0 });
    let b2: Fx = fx_mul(base, base);
    let b4: Fx = fx_mul(b2, b2);
    let p5: Fx = fx_mul(b4, base);
    fx_add(fx_mul(p5, fx_sub(Fx { raw: FX_ONE }, f0)), f0)
}

/// A Cook-Torrance material: immutable physical parameters of one surface,
/// shared by every primitive that references it.
#[derive(Clone, Copy, PartialEq, Eq, Structural, Debug)]
pub struct CookTorranceMaterial {
    /// Ambient coefficient.
    pub k_a: Fx,
    /// Diffuse coefficient.
    pub k_d: Fx,
    /// Local specular coefficient.
    pub k_s: Fx,
    /// Global specular coefficient (mirror reflection).
    pub k_sg: Fx,
    /// Global transmissive coefficient (refraction).
    pub k_tg: Fx,
    /// Ambient color.
    pub ambient: Vec3,
    /// Diffuse color.
    pub diffuse: Vec3,
    /// Transmissive color.
    pub transmission: Vec3,
    /// Specular color.
    pub specular: Vec3,
    /// Microfacet distribution spread.
    pub roughness: Fx,
    /// Scale factor of the facet distribution.
    pub gauss_constant: Fx,
    /// Index of refraction.
    pub ior: Fx,
}

/// Every channel of a color lies in [0, 1].
pub open spec fn color_wf(c: Vec3) -> bool {
    &&& 0 <= c.x@ <= FX_ONE as int
    &&& 0 <= c.y@ <= FX_ONE as int
    &&& 0 <= c.z@ <= FX_ONE as int
}

/// The specular contribution of one light sample, or the zero color when
/// the geometry is degenerate or grazing (see the module policy).
pub open spec fn specular_term_spec(m: CookTorranceMaterial, n: Vec3, i: Vec3, l: Vec3) -> Vec3 {
    let h = vec_unit_spec(vec_add_spec(l, i));
    let n_dot_h = vec_dot_spec(n, h);
    let n_dot_l = vec_dot_spec(n, l);
    let v_dot_h = vec_dot_spec(i, h);
    let n_dot_v = vec_dot_spec(n, i);
    let denom = fx_mul_raw(n_dot_v, n_dot_l);
    if v_dot_h <= 0 || n_dot_v <= 0 || n_dot_l <= 0 || denom <= 0 {
        vec_zero_spec()
    } else {
        let f = fresnel_raw(m.ior@, v_dot_h);
        let alpha = acos_raw(n_dot_h);
        let exp_arg = fx_max_raw(fx_div_raw(alpha, fx_sqrt_raw(m.roughness@)), 0);
        let d = fx_mul_raw(m.gauss_constant@, exp_neg_raw(exp_arg));
        let twice_n_dot_h = fx_add_raw(n_dot_h, n_dot_h);
        let g1 = fx_div_raw(fx_mul_raw(twice_n_dot_h, n_dot_v), v_dot_h);
        let g2 = fx_div_raw(fx_mul_raw(twice_n_dot_h, n_dot_l), v_dot_h);
        let g = fx_min_raw(g1, g2);
        let brdf = fx_div_raw(fx_mul_raw(fx_mul_raw(f, d), g), denom);
        vec_scale_spec(m.specular, fx_mul_raw(m.k_s@, brdf))
    }
}

/// The full direct-lighting response: specular term, plus the diffuse
/// color scaled by `k_d * max(dot(n,l), 0)`, plus the ambient color scaled
/// by `k_a`.
pub open spec fn sample_spec(m: CookTorranceMaterial, n: Vec3, i: Vec3, l: Vec3) -> Vec3 {
    let ambient = vec_scale_spec(m.ambient, m.k_a@);
    let diffuse = vec_scale_spec(
        vec_scale_spec(m.diffuse, m.k_d@),
        fx_max_raw(vec_dot_spec(n, l), 0),
    );
    vec_add_spec(vec_add_spec(specular_term_spec(m, n, i, l), diffuse), ambient)
}

impl CookTorranceMaterial {
    /// The parameter domains: nonnegative coefficients, ambient and
    /// transmission channels in [0, 1], positive roughness, facet scale
    /// and index of refraction.
    pub open spec fn wf(self) -> bool {
        &&& self.k_a@ >= 0
        &&& self.k_d@ >= 0
        &&& self.k_s@ >= 0
        &&& self.k_sg@ >= 0
        &&& self.k_tg@ >= 0
        &&& color_wf(self.ambient)
        &&& color_wf(self.transmission)
        &&& self.roughness@ > 0
        &&& self.gauss_constant@ > 0
        &&& self.ior@ > 0
    }

    /// Validating constructor: returns the material exactly when the
    /// parameters lie in their domains, and nothing otherwise.
    pub fn new(
        k_a: Fx,
        k_d: Fx,
        k_s: Fx,
        k_sg: Fx,
        k_tg: Fx,
        ambient: Vec3,
        diffuse: Vec3,
        transmission: Vec3,
        specular: Vec3,
        roughness: Fx,
        gauss_constant: Fx,
        ior: Fx,
    ) -> (r: Option<CookTorranceMaterial>)
        ensures
            ({
                let m = (CookTorranceMaterial {
                    k_a,
                    k_d,
                    k_s,
                    k_sg,
                    k_tg,
                    ambient,
                    diffuse,
                    transmission,
                    specular,
                    roughness,
                    gauss_constant,
                    ior,
                });
                if m.wf() {
                    r == Some(m)
                } else {
                    r == None::<CookTorranceMaterial>
                }
            }),
    {
        let m = CookTorranceMaterial {
            k_a,
            k_d,
            k_s,
            k_sg,
            k_tg,
            ambient,
            diffuse,
            transmission,
            specular,
            roughness,
            gauss_constant,
            ior,
        };
        let colors_ok: bool = color_in_range(&m.ambient) && color_in_range(&m.transmission);
        if m.k_a.raw >= 0 && m.k_d.raw >= 0 && m.k_s.raw >= 0 && m.k_sg.raw >= 0 && m.k_tg.raw
            >= 0 && colors_ok && m.roughness.raw > 0 && m.gauss_constant.raw > 0 && m.ior.raw
            > 0 {
            Some(m)
        } else {
            None
        }
    }
}

fn color_in_range(c: &Vec3) -> (r: bool)
    ensures
        r == color_wf(*c),
{
    0 <= c.x.raw && c.x.raw <= FX_ONE && 0 <= c.y.raw && c.y.raw <= FX_ONE && 0 <= c.z.raw
        && c.z.raw <= FX_ONE
}

impl Material for CookTorranceMaterial {
    open spec fn valid(&self) -> bool {
        self.wf()
    }

    open spec fn sample_spec(&self, n: Vec3, i: Vec3, l: Vec3) -> Vec3 {
        sample_spec(*self, n, i, l)
    }

    open spec fn global_specular_coeff(&self) -> int {
        self.k_sg@
    }

    open spec fn global_transmissive_coeff(&self) -> int {
        self.k_tg@
    }

    open spec fn transmission_spec(&self) -> Vec3 {
        self.transmission
    }

    open spec fn ior_spec(&self) -> Fx {
        self.ior
    }

    fn sample(&self, n: Vec3, i: Vec3, l: Vec3) -> (c: Vec3) {
        let h: Vec3 = l.add(&i).unit();
        let ambient: Vec3 = self.ambient.scale(self.k_a);
        let n_dot_l: Fx = n.dot(&l);
        let diffuse: Vec3 = self.diffuse.scale(self.k_d).scale(fx_max(n_dot_l, Fx { raw: 0 }));
        let n_dot_h: Fx = n.dot(&h);
        let v_dot_h: Fx = i.dot(&h);
        let n_dot_v: Fx = n.dot(&i);
        let denom: Fx = fx_mul(n_dot_v, n_dot_l);
        let spec_term: Vec3 = if v_dot_h.raw <= 0 || n_dot_v.raw <= 0 || n_dot_l.raw <= 0
            || denom.raw <= 0 {
            Vec3::zero()
        } else {
            let f: Fx = fresnel(self.ior, v_dot_h);
            let alpha: Fx = acos_fx(n_dot_h);
            proof {
                assert(self.roughness@ * FX_ONE as int >= FX_ONE as int) by (nonlinear_arith)
                    requires
                        self.roughness@ >= 1,
                ;
                lemma_isqrt_lower((self.roughness@ * FX_ONE as int) as nat, 0x1_0000);
            }
            let sq: Fx = fx_sqrt(self.roughness);
            let exp_arg: Fx = fx_max(fx_div(alpha, sq), Fx { raw: 0 });
            let d: Fx = fx_mul(self.gauss_constant, exp_neg(exp_arg));
            let twice_n_dot_h: Fx = fx_add(n_dot_h, n_dot_h);
            let g1: Fx = fx_div(fx_mul(twice_n_dot_h, n_dot_v), v_dot_h);
            let g2: Fx = fx_div(fx_mul(twice_n_dot_h, n_dot_l), v_dot_h);
            let g: Fx = fx_min(g1, g2);
            let brdf: Fx = fx_div(fx_mul(fx_mul(f, d), g), denom);
            self.specular.scale(fx_mul(self.k_s, brdf))
        };
        spec_term.add(&diffuse).add(&ambient)
    }

    fn is_reflective(&self) -> (r: bool) {
        self.k_sg.raw > 0
    }

    fn is_refractive(&self) -> (r: bool) {
        self.k_tg.raw > 0
    }

    fn global_specular(&self, color: &Vec3) -> (c: Vec3) {
        color.scale(self.k_sg)
    }

    fn global_transmissive(&self, color: &Vec3) -> (c: Vec3) {
        color.scale(self.k_tg)
    }

    fn transmission(&self) -> (c: Vec3) {
        self.transmission
    }

    fn ior(&self) -> (r: Fx) {
        self.ior
    }
}

proof fn lemma_specular_term_zero_when_ks_zero(m: CookTorranceMaterial, n: Vec3, i: Vec3, l: Vec3)
    requires
        m.k_s@ == 0,
    ensures
        specular_term_spec(m, n, i, l) == vec_zero_spec(),
{
    let h = vec_unit_spec(vec_add_spec(l, i));
    let n_dot_h = vec_dot_spec(n, h);
    let n_dot_l = vec_dot_spec(n, l);
    let v_dot_h = vec_dot_spec(i, h);
    let n_dot_v = vec_dot_spec(n, i);
    let denom = fx_mul_raw(n_dot_v, n_dot_l);
    if !(v_dot_h <= 0 || n_dot_v <= 0 || n_dot_l <= 0 || denom <= 0) {
        let f = fresnel_raw(m.ior@, v_dot_h);
        let alpha = acos_raw(n_dot_h);
        let exp_arg = fx_max_raw(fx_div_raw(alpha, fx_sqrt_raw(m.roughness@)), 0);
        let d = fx_mul_raw(m.gauss_constant@, exp_neg_raw(exp_arg));
        let twice_n_dot_h = fx_add_raw(n_dot_h, n_dot_h);
        let g1 = fx_div_raw(fx_mul_raw(twice_n_dot_h, n_dot_v), v_dot_h);
        let g2 = fx_div_raw(fx_mul_raw(twice_n_dot_h, n_dot_l), v_dot_h);
        let g = fx_min_raw(g1, g2);
        let brdf = fx_div_raw(fx_mul_raw(fx_mul_raw(f, d), g), denom);
        lemma_fx_mul_zero(brdf);
        lemma_fx_mul_zero(m.specular.x@);
        lemma_fx_mul_zero(m.specular.y@);
        lemma_fx_mul_zero(m.specular.z@);
    }
}

/// Law: a material with no diffuse and no local specular coefficient
/// returns exactly its ambient color scaled by the ambient coefficient,
/// whatever the three directions.
pub proof fn lemma_ambient_only(m: CookTorranceMaterial, n: Vec3, i: Vec3, l: Vec3)
    requires
        m.k_d@ == 0,
        m.k_s@ == 0,
    ensures
        sample_spec(m, n, i, l) == vec_scale_spec(m.ambient, m.k_a@),
{
    lemma_specular_term_zero_when_ks_zero(m, n, i, l);
    lemma_fx_mul_zero(m.diffuse.x@);
    lemma_fx_mul_zero(m.diffuse.y@);
    lemma_fx_mul_zero(m.diffuse.z@);
    lemma_fx_mul_zero(fx_max_raw(vec_dot_spec(n, l), 0));
}

/// Law: a material with no ambient and no local specular coefficient
/// returns exactly its diffuse color scaled by the diffuse coefficient
/// and the clamped incidence factor `max(dot(n,l), 0)`.
pub proof fn lemma_diffuse_only(m: CookTorranceMaterial, n: Vec3, i: Vec3, l: Vec3)
    requires
        m.k_a@ == 0,
        m.k_s@ == 0,
    ensures
        sample_spec(m, n, i, l) == vec_scale_spec(
            vec_scale_spec(m.diffuse, m.k_d@),
            fx_max_raw(vec_dot_spec(n, l), 0),
        ),
{
    lemma_specular_term_zero_when_ks_zero(m, n, i, l);
    lemma_fx_mul_zero(m.ambient.x@);
    lemma_fx_mul_zero(m.ambient.y@);
    lemma_fx_mul_zero(m.ambient.z@);
}

/// Law: at normal incidence, where `dot(i,h)` is exactly 1, the Fresnel
/// factor reduces to the base reflectance `f0`.
pub proof fn lemma_fresnel_normal_incidence(ior: int)
    ensures
        fresnel_raw(ior, FX_ONE as int) == f0_raw(ior),
{
    lemma_fx_mul_zero(0);
    lemma_fx_mul_zero(fx_sub_raw(FX_ONE as int, f0_raw(ior)));
}

/// Law: scaling the unit-white color by a coefficient gives exactly that
/// coefficient in every channel.
pub proof fn lemma_scale_white(k: Fx)
    ensures
        vec_scale_spec(
            (Vec3 { x: Fx { raw: FX_ONE }, y: Fx { raw: FX_ONE }, z: Fx { raw: FX_ONE } }),
            k@,
        ) == (Vec3 { x: k, y: k, z: k }),
{
    lemma_fx_mul_one(k@);
}

/// Law: at grazing or degenerate geometry — where `dot(i,h)`, `dot(n,i)`,
/// `dot(n,l)` or the truncated product `dot(n,i)*dot(n,l)` is not positive
/// — the specular term is dropped exactly, and the sample is the diffuse
/// and ambient terms alone.  No division is ever taken near zero, so the
/// result stays representable instead of blowing up.
pub proof fn lemma_grazing_specular_zero(m: CookTorranceMaterial, n: Vec3, i: Vec3, l: Vec3)
    requires
        ({
            let h = vec_unit_spec(vec_add_spec(l, i));
            vec_dot_spec(i, h) <= 0 || vec_dot_spec(n, i) <= 0 || vec_dot_spec(n, l) <= 0
                || fx_mul_raw(vec_dot_spec(n, i), vec_dot_spec(n, l)) <= 0
        }),
    ensures
        specular_term_spec(m, n, i, l) == vec_zero_spec(),
        sample_spec(m, n, i, l) == vec_add_spec(
            vec_add_spec(
                vec_zero_spec(),
                vec_scale_spec(vec_scale_spec(m.diffuse, m.k_d@), fx_max_raw(vec_dot_spec(n, l), 0)),
            ),
            vec_scale_spec(m.ambient, m.k_a@),
        ),
{
}

/// Law: the arc cosine approximation is exact at 1, where the angle
/// between the normal and the half-vector vanishes.
pub proof fn lemma_acos_one()
    ensures
        acos_raw(FX_ONE as int) == 0,
{
    assert(0 * FX_ONE as int == 0) by (nonlinear_arith);
    assert(fx_sqrt_raw(0) == 0);
    lemma_fx_mul_zero(acos_poly_raw(FX_ONE as int));
}

/// Law: the decaying exponential approximation is exact at 0, so a
/// perfectly aligned half-vector gets the full facet-distribution scale.
pub proof fn lemma_exp_neg_zero()
    ensures
        exp_neg_raw(0) == FX_ONE as int,
{
    lemma_fx_mul_zero(0);
    lemma_fx_mul_zero(EXP_HALF as int);
    lemma_fx_mul_zero(EXP_SIXTH as int);
    lemma_fx_mul_zero(EXP_24TH as int);
    let num = FX_ONE as int * FX_ONE as int;
    assert(num == 0x1_0000_0000_0000_0000) by (nonlinear_arith)
        requires
            num == FX_ONE as int * FX_ONE as int,
            FX_ONE == 0x1_0000_0000i64,
    ;
    vstd::arithmetic::div_mod::lemma_div_multiples_vanish(FX_ONE as int, FX_ONE as int);
    assert(tdiv(num, FX_ONE as int) == FX_ONE as int);
}

/// Law: the decaying exponential factor never amplifies: for every
/// representable nonnegative argument its value lies in (0, 1].
pub proof fn lemma_exp_neg_range(x: int)
    requires
        0 <= x <= FX_MAX as int,
    ensures
        1 <= exp_neg_raw(x) <= FX_ONE as int,
{
    let t2 = fx_mul_raw(x, x);
    let t3 = fx_mul_raw(t2, x);
    let t4 = fx_mul_raw(t3, x);
    lemma_fx_mul_nonneg(x, x);
    lemma_fx_mul_nonneg(t2, x);
    lemma_fx_mul_nonneg(t3, x);
    lemma_fx_mul_nonneg(t2, EXP_HALF as int);
    lemma_fx_mul_nonneg(t3, EXP_SIXTH as int);
    lemma_fx_mul_nonneg(t4, EXP_24TH as int);
    let den = fx_add_raw(
        fx_add_raw(
            fx_add_raw(fx_add_raw(FX_ONE as int, x), fx_mul_raw(t2, EXP_HALF as int)),
            fx_mul_raw(t3, EXP_SIXTH as int),
        ),
        fx_mul_raw(t4, EXP_24TH as int),
    );
    assert(FX_ONE as int <= den <= FX_MAX as int);
    let num = FX_ONE as int * FX_ONE as int;
    assert(num == 0x1_0000_0000_0000_0000) by (nonlinear_arith)
        requires
            num == FX_ONE as int * FX_ONE as int,
            FX_ONE == 0x1_0000_0000i64,
    ;
    assert(tdiv(num, den) == num / den);
    vstd::arithmetic::div_mod::lemma_div_non_zero(num, den);
    vstd::arithmetic::div_mod::lemma_div_is_ordered_by_denominator(num, FX_ONE as int, den);
    vstd::arithmetic::div_mod::lemma_div_multiples_vanish(FX_ONE as int, FX_ONE as int);
    assert(num / FX_ONE as int == FX_ONE as int);
    assert(1 <= num / den <= FX_ONE as int);
}

/// Law: the Schlick base reflectance lies in [0, 1) for every
/// representable positive index of refraction.
pub proof fn lemma_f0_range(ior: int)
    requires
        0 < ior <= FX_MAX as int,
    ensures
        0 <= f0_raw(ior) < FX_ONE as int,
{
    let one = FX_ONE as int;
    let s = fx_sub_raw(one, ior);
    let b = fx_add_raw(one, ior);
    assert(s == one - ior);
    assert(b > one);
    assert(abs_i(s) < b);
    let q = tdiv(s * one, b);
    lemma_mul_abs_sign(s, one);
    assert(abs_i(s * one) == abs_i(s) * one);
    let mq = abs_i(s) * one / b;
    assert(abs_i(s) * one <= (b - 1) * one) by (nonlinear_arith)
        requires
            abs_i(s) <= b - 1,
            one > 0,
    ;
    assert((b - 1) * one == b * (one - 1) + (b - one)) by (nonlinear_arith);
    assert(b * one - 1 == b * (one - 1) + (b - 1)) by (nonlinear_arith);
    vstd::arithmetic::div_mod::lemma_div_is_ordered(abs_i(s) * one, b * one - 1, b);
    vstd::arithmetic::div_mod::lemma_div_multiples_vanish_fancy(one - 1, b - 1, b);
    assert((b * one - 1) / b == one - 1);
    assert(mq <= one - 1);
    vstd::arithmetic::div_mod::lemma_div_pos_is_pos(abs_i(s) * one, b);
    assert(0 <= mq);
    assert(q == mq || q == -mq);
    assert(clip(q) == q);
    lemma_mul_abs_sign(q, q);
    assert(q * q == mq * mq) by (nonlinear_arith)
        requires
            q == mq || q == -mq,
    ;
    assert(mq * mq <= (one - 1) * (one - 1)) by (nonlinear_arith)
        requires
            0 <= mq <= one - 1,
    ;
    assert(tdiv(q * q, one) == q * q / one);
    vstd::arithmetic::div_mod::lemma_div_is_ordered(q * q, (one - 1) * (one - 1), one);
    assert((one - 1) * (one - 1) == one * (one - 2) + 1) by (nonlinear_arith);
    vstd::arithmetic::div_mod::lemma_div_multiples_vanish_fancy(one - 2, 1, one);
    assert((one * (one - 2) + 1) / one == one - 2);
    vstd::arithmetic::div_mod::lemma_div_pos_is_pos(q * q, one);
    assert(0 <= q * q / one <= one - 2);
    assert(f0_raw(ior) == clip(q * q / one));
}

/// Law: a zero half-vector — the light and view directions exactly
/// opposite — is degenerate and contributes no specular light.
pub proof fn lemma_degenerate_half_vector(m: CookTorranceMaterial, n: Vec3, i: Vec3, l: Vec3)
    requires
        vec_add_spec(l, i) == vec_zero_spec(),
    ensures
        specular_term_spec(m, n, i, l) == vec_zero_spec(),
{
    let h = vec_unit_spec(vec_add_spec(l, i));
    assert(vec_norm2_mag(vec_zero_spec()) == 0) by (nonlinear_arith);
    assert(h == vec_zero_spec());
    lemma_fx_mul_zero(i.x@);
    lemma_fx_mul_zero(i.y@);
    lemma_fx_mul_zero(i.z@);
    assert(vec_dot_spec(i, h) == 0);
    lemma_grazing_specular_zero(m, n, i, l);
}

} // verus!
