use ray_trace::hitable::{HitRecord, Hitable, HitableList};
use ray_trace::material::Material;
use ray_trace::{Ray, Scalar, Vec3};

#[derive(Debug, Eq, PartialEq)]
struct Matte {}

impl Material for Matte {
    fn scatter(&self, _ray_in: &Ray, _hit_record: &HitRecord<Matte>) -> (Vec3, Option<Ray>) {
        let zero = Scalar::from_bits(0.0f64.to_bits());
        (Vec3::new(zero, zero, zero), None)
    }
}

#[derive(Debug, Eq, PartialEq)]
struct HitDummy {}

impl HitDummy {
    pub fn new() -> Self {
        Self {}
    }
}

impl Hitable for HitDummy {
    type Mat = Matte;

    fn hit(&self, _ray: &Ray, _t_min: Scalar, _t_max: Scalar) -> Option<HitRecord<Matte>> {
        None
    }
}

#[test]
fn hitable_list_iterates_over_hitables() {
    let dummy_one = HitDummy::new();
    let dummy_two = HitDummy::new();
    let slice = vec![dummy_one, dummy_two];
    let mut hitable_list = HitableList::new(&slice);

    assert_eq!(Some(&HitDummy::new()), hitable_list.next());
    assert_eq!(Some(&HitDummy::new()), hitable_list.next());
    assert_eq!(None, hitable_list.next());
}

#[test]
fn hitable_list_from_a_vec() {
    let vector = vec![HitDummy::new(), HitDummy::new()];

    let hitable_list = HitableList::from(&vector);

    assert_eq!(2, hitable_list.count());
}
