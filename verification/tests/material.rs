use ray_trace::hitable::HitRecord;
use ray_trace::material::{inside_unit_sphere, Lambertian, Metal};
use ray_trace::{Scalar, Vec3};

fn s(x: f64) -> Scalar {
    Scalar::from_bits(x.to_bits())
}

fn v(x: f64, y: f64, z: f64) -> Vec3 {
    Vec3::new(s(x), s(y), s(z))
}

fn dot(a: [f64; 3], b: [f64; 3]) -> f64 {
    a[0] * b[0] + a[1] * b[1] + a[2] * b[2]
}

/// `v - 2 * dot(v, n) * n` for a unit `v`, in double precision.
fn reflect(direction: [f64; 3], normal: [f64; 3]) -> [f64; 3] {
    let length = dot(direction, direction).sqrt();
    let unit = [direction[0] / length, direction[1] / length, direction[2] / length];
    let twice = 2.0 * dot(unit, normal);
    [unit[0] - twice * normal[0], unit[1] - twice * normal[1], unit[2] - twice * normal[2]]
}

fn metal_answer(metal: &Metal, direction: [f64; 3], normal: [f64; 3]) -> (Vec3, Option<[f64; 3]>) {
    let unit = ();
    let record = HitRecord::new(
        s(1.0),
        v(1.0, 2.0, 3.0),
        v(normal[0], normal[1], normal[2]),
        &unit,
    );
    let reflected = reflect(direction, normal);
    let facing = dot(reflected, normal);
    let (attenuation, scattered) = metal.scatter_reflected(
        &record,
        v(reflected[0], reflected[1], reflected[2]),
        s(facing),
    );
    let direction = scattered.map(|ray| {
        assert_eq!(v(1.0, 2.0, 3.0), ray.origin());
        let d = ray.direction();
        [
            f64::from_bits(d.x().to_bits()),
            f64::from_bits(d.y().to_bits()),
            f64::from_bits(d.z().to_bits()),
        ]
    });
    (attenuation, direction)
}

#[test]
fn metal_reflects_a_ray_that_comes_from_above() {
    let metal = Metal { albedo: v(0.8, 0.6, 0.2) };

    let (attenuation, direction) = metal_answer(&metal, [3.0, -4.0, 0.0], [0.0, 1.0, 0.0]);

    assert_eq!(v(0.8, 0.6, 0.2), attenuation);
    assert_eq!(Some([0.6, 0.8, 0.0]), direction);
}

#[test]
fn metal_absorbs_a_ray_that_would_reflect_into_the_surface() {
    let metal = Metal { albedo: v(0.8, 0.6, 0.2) };

    // The ray comes from below the surface: its mirror image points further down.
    let (attenuation, direction) = metal_answer(&metal, [3.0, 4.0, 0.0], [0.0, 1.0, 0.0]);

    assert_eq!(v(0.8, 0.6, 0.2), attenuation);
    assert_eq!(None, direction);
}

#[test]
fn metal_absorbs_a_grazing_ray() {
    let metal = Metal { albedo: v(0.5, 0.5, 0.5) };

    // The ray runs along the surface: the reflected ray has no part along the normal.
    let (attenuation, direction) = metal_answer(&metal, [1.0, 0.0, 0.0], [0.0, 1.0, 0.0]);

    assert_eq!(v(0.5, 0.5, 0.5), attenuation);
    assert_eq!(None, direction);
}

#[test]
fn metal_decides_by_the_sign_of_the_dot_product_alone() {
    let metal = Metal { albedo: v(0.1, 0.2, 0.3) };
    let unit = ();
    let record = HitRecord::new(s(2.0), v(0.0, 0.0, -1.0), v(0.0, 0.0, 1.0), &unit);
    let reflected = v(0.25, 0.5, 0.75);

    for facing in [f64::MIN_POSITIVE, 1.0e-310, 0.5, f64::MAX, f64::INFINITY] {
        let (attenuation, scattered) = metal.scatter_reflected(&record, reflected, s(facing));
        assert_eq!(v(0.1, 0.2, 0.3), attenuation);
        let ray = scattered.expect("a reflection above the horizon leaves the surface");
        assert_eq!(v(0.0, 0.0, -1.0), ray.origin());
        assert_eq!(v(0.25, 0.5, 0.75), ray.direction());
    }
    for facing in [0.0, -0.0, -1.0e-310, -0.5, f64::NEG_INFINITY, f64::NAN] {
        let (attenuation, scattered) = metal.scatter_reflected(&record, reflected, s(facing));
        assert_eq!(v(0.1, 0.2, 0.3), attenuation);
        assert!(scattered.is_none(), "facing {:?}", facing);
    }
}

#[test]
fn lambertian_always_scatters_from_the_hit_point() {
    let lambertian = Lambertian { albedo: v(0.8, 0.3, 0.3) };
    let unit = ();
    let record = HitRecord::new(s(0.5), v(0.0, 0.0, -0.5), v(0.0, 0.0, 1.0), &unit);

    let (attenuation, scattered) = lambertian.scatter_along(&record, v(0.25, -0.5, 1.5));

    assert_eq!(v(0.8, 0.3, 0.3), attenuation);
    let ray = scattered.expect("a diffuse surface scatters every ray");
    assert_eq!(v(0.0, 0.0, -0.5), ray.origin());
    assert_eq!(v(0.25, -0.5, 1.5), ray.direction());
}

#[test]
fn lambertian_scatters_even_along_a_vanishing_direction() {
    let lambertian = Lambertian { albedo: v(0.8, 0.8, 0.0) };
    let unit = ();
    let record = HitRecord::new(s(0.5), v(1.0, 1.0, 1.0), v(0.0, 1.0, 0.0), &unit);

    let (_, scattered) = lambertian.scatter_along(&record, v(0.0, 0.0, 0.0));

    let ray = scattered.expect("a diffuse surface scatters every ray");
    assert_eq!(0.0f64.to_bits(), ray.direction().x().to_bits());
}

#[test]
fn unit_sphere_excludes_its_boundary() {
    assert!(inside_unit_sphere(s(0.0)));
    assert!(inside_unit_sphere(s(0.75)));
    assert!(inside_unit_sphere(s(0.999_999_999_999_999_9)));
    assert!(!inside_unit_sphere(s(1.0)));
    assert!(!inside_unit_sphere(s(1.000_000_000_000_000_2)));
    assert!(!inside_unit_sphere(s(3.0)));
    assert!(!inside_unit_sphere(s(f64::NAN)));
}

#[test]
fn unit_sphere_keeps_the_samples_a_rejection_sampler_should_keep() {
    // A fixed sequence of candidates from the cube [-1, 1)^3.
    let candidates = [
        [0.9, 0.9, 0.9],
        [1.0, 0.0, 0.0],
        [0.5, 0.5, 0.5],
        [0.0, -0.6, 0.8],
        [-0.1, 0.2, -0.3],
    ];

    let kept: Vec<[f64; 3]> = candidates
        .iter()
        .copied()
        .filter(|p| inside_unit_sphere(s(dot(*p, *p))))
        .collect();

    assert_eq!(vec![[0.5, 0.5, 0.5], [-0.1, 0.2, -0.3]], kept);
}

#[test]
fn materials_compare_by_their_albedo() {
    assert_eq!(Lambertian { albedo: v(0.8, 0.3, 0.3) }, Lambertian { albedo: v(0.8, 0.3, 0.3) });
    assert_ne!(Lambertian { albedo: v(0.8, 0.3, 0.3) }, Lambertian { albedo: v(0.8, 0.3, 0.4) });
    assert_eq!(Metal { albedo: v(0.8, 0.6, 0.2) }, Metal { albedo: v(0.8, 0.6, 0.2) }.clone());
}
