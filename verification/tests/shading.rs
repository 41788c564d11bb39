use raytracer::cook_torrance::{fresnel, CookTorranceMaterial};
use raytracer::fixed::{fx_add, fx_div, fx_mul, fx_sub, Fx, FX_ONE};
use raytracer::material::Material;
use raytracer::vec3::Vec3;

fn fx(raw: i64) -> Fx {
    Fx { raw }
}

fn gray(raw: i64) -> Vec3 {
    Vec3 { x: fx(raw), y: fx(raw), z: fx(raw) }
}

fn white() -> Vec3 {
    gray(FX_ONE)
}

fn ez() -> Vec3 {
    Vec3 { x: fx(0), y: fx(0), z: Fx::one() }
}

fn base_material() -> CookTorranceMaterial {
    CookTorranceMaterial {
        k_a: Fx::from_ratio(1, 10),
        k_d: Fx::from_ratio(6, 10),
        k_s: Fx::from_ratio(3, 10),
        k_sg: fx(0),
        k_tg: fx(0),
        ambient: white(),
        diffuse: white(),
        transmission: white(),
        specular: white(),
        roughness: Fx::from_ratio(2, 10),
        gauss_constant: Fx::one(),
        ior: Fx::from_ratio(3, 2),
    }
}

#[test]
fn test_ambient_only_ignores_directions() {
    let mut m = base_material();
    m.k_d = fx(0);
    m.k_s = fx(0);
    m.k_a = Fx::from_ratio(1, 4);
    m.ambient = Vec3 { x: Fx::one(), y: fx(2147483648), z: fx(1073741824) };

    let n = ez();
    let ex = Vec3 { x: Fx::one(), y: fx(0), z: fx(0) };
    let ey = Vec3 { x: fx(0), y: Fx::one(), z: fx(0) };

    let expected = (1073741824, 536870912, 268435456);
    for (i, l) in [(ex, ey), (ey, ex), (n, n), (ex, ex)] {
        let c = m.sample(n, i, l);
        assert_eq!((c.x.raw, c.y.raw, c.z.raw), expected);
    }
}

#[test]
fn test_diffuse_only_scales_by_clamped_incidence() {
    let mut m = base_material();
    m.k_a = fx(0);
    m.k_s = fx(0);
    m.k_d = Fx::one();

    let n = ez();
    let i = Vec3 { x: Fx::one(), y: fx(0), z: fx(0) };

    // light along the normal: full diffuse color
    let c = m.sample(n, i, ez());
    assert_eq!((c.x.raw, c.y.raw, c.z.raw), (FX_ONE, FX_ONE, FX_ONE));

    // light behind the surface: the negative incidence is clamped to zero
    let below = Vec3 { x: fx(0), y: fx(0), z: fx(-FX_ONE) };
    let c = m.sample(n, i, below);
    assert_eq!((c.x.raw, c.y.raw, c.z.raw), (0, 0, 0));
}

#[test]
fn test_fresnel_reduces_to_f0_at_normal_incidence() {
    let one = Fx::one();
    let ior = Fx::from_ratio(3, 2);
    let r0 = fx_div(fx_sub(one, ior), fx_add(one, ior));
    let f0 = fx_mul(r0, r0);
    assert_eq!(f0.raw, 171798691);  // 0.04 at 32 fractional bits, truncated
    assert_eq!(fresnel(ior, one), f0);
    // away from normal incidence the factor grows beyond f0
    assert!(fresnel(ior, Fx::from_ratio(1, 10)).raw > f0.raw);
}

#[test]
fn test_is_reflective_iff_positive_coefficient() {
    let coefficients = [
        (Fx::from_ratio(0, 1), false),
        (Fx::from_ratio(1, 1_000_000_000), true),
        (Fx::from_ratio(1, 2), true),
        (Fx::from_int(5), true),
    ];
    for (k, expected) in coefficients {
        let mut m = base_material();
        m.k_sg = k;
        assert_eq!(m.is_reflective(), expected);
        let mut m = base_material();
        m.k_tg = k;
        assert_eq!(m.is_refractive(), expected);
    }
}

#[test]
fn test_scale_reflection_white_yields_coefficient() {
    let mut m = base_material();
    m.k_sg = Fx::from_ratio(7, 10);
    let c = m.global_specular(&white());
    assert_eq!((c.x.raw, c.y.raw, c.z.raw), (3006477107, 3006477107, 3006477107));

    m.k_tg = Fx::from_ratio(1, 4);
    let c = m.global_transmissive(&white());
    assert_eq!((c.x.raw, c.y.raw, c.z.raw), (1073741824, 1073741824, 1073741824));
}

#[test]
fn test_grazing_geometry_drops_specular_term() {
    let m = base_material();
    let n = ez();
    let ex = Vec3 { x: Fx::one(), y: fx(0), z: fx(0) };

    // view direction in the surface plane: dot(n,i) == 0, and the light is
    // there too, so the diffuse factor is also zero; only ambient remains.
    let c = m.sample(n, ex, ex);
    let ambient_only = 429496729;  // 1.0 * 0.1
    assert_eq!((c.x.raw, c.y.raw, c.z.raw), (ambient_only, ambient_only, ambient_only));

    // light exactly opposite the viewer: the half-vector degenerates to
    // zero and the specular term is dropped; the light is also behind the
    // surface, so only ambient remains.
    let below = Vec3 { x: fx(0), y: fx(0), z: fx(-FX_ONE) };
    let c = m.sample(n, ez(), below);
    assert_eq!((c.x.raw, c.y.raw, c.z.raw), (ambient_only, ambient_only, ambient_only));
}

#[test]
fn test_grazing_sweep_is_stable() {
    let m = base_material();
    let n = ez();
    // sweep the light toward 90 degrees off the normal; every sample must
    // complete and repeat identically
    for k in 0..32 {
        let l = Vec3 { x: Fx::one(), y: fx(0), z: fx(FX_ONE >> k) }.unit();
        let i = ez();
        let first = m.sample(n, i, l);
        let second = m.sample(n, i, l);
        assert_eq!(first, second);
    }
}

#[test]
fn test_normal_incidence_sample_is_deterministic() {
    let m = CookTorranceMaterial::new(
        Fx::from_ratio(1, 10),
        Fx::from_ratio(6, 10),
        Fx::from_ratio(3, 10),
        fx(0),
        fx(0),
        white(),
        white(),
        white(),
        white(),
        Fx::from_ratio(2, 10),
        Fx::one(),
        Fx::from_ratio(3, 2),
    )
    .expect("parameters are in their domains");

    let n = ez();
    let first = m.sample(n, n, n);
    let second = m.sample(n, n, n);
    assert_eq!(first, second);
    // ambient 0.1 + diffuse 0.6 + specular 0.3 * brdf, all exactly
    assert_eq!((first.x.raw, first.y.raw, first.z.raw), (3109556320, 3109556320, 3109556320));
}

#[test]
fn test_constructor_rejects_out_of_domain_parameters() {
    let ok = CookTorranceMaterial::new(
        fx(0),
        fx(0),
        fx(0),
        fx(0),
        fx(0),
        gray(0),
        white(),
        gray(0),
        white(),
        fx(1),
        fx(1),
        fx(1),
    );
    assert!(ok.is_some());
    assert_eq!(ok.unwrap().roughness.raw, 1);

    let mut m = base_material();
    m.roughness = fx(0);
    assert!(rebuild(&m).is_none());

    let mut m = base_material();
    m.ior = fx(-1);
    assert!(rebuild(&m).is_none());

    let mut m = base_material();
    m.k_d = fx(-1);
    assert!(rebuild(&m).is_none());

    let mut m = base_material();
    m.ambient = gray(FX_ONE + 1);
    assert!(rebuild(&m).is_none());

    let mut m = base_material();
    m.transmission = gray(-1);
    assert!(rebuild(&m).is_none());

    assert!(rebuild(&base_material()).is_some());
}

fn rebuild(m: &CookTorranceMaterial) -> Option<CookTorranceMaterial> {
    CookTorranceMaterial::new(
        m.k_a,
        m.k_d,
        m.k_s,
        m.k_sg,
        m.k_tg,
        m.ambient,
        m.diffuse,
        m.transmission,
        m.specular,
        m.roughness,
        m.gauss_constant,
        m.ior,
    )
}

#[test]
fn test_transmission_and_ior_report_fields() {
    let mut m = base_material();
    m.transmission = gray(2147483648);
    m.ior = Fx::from_ratio(4, 3);
    assert_eq!(m.transmission(), gray(2147483648));
    assert_eq!(m.ior(), Fx::from_ratio(4, 3));
}
