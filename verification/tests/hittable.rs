use ray_tracer::camera::{Camera, Outcome, Trace};
use ray_tracer::hittable::{HitRecord, Hittable, HittableList};
use ray_tracer::interval::Interval;
use ray_tracer::scalar::Scalar;
use ray_tracer::sphere::{Crossing, Sphere, SphereProbe};
use ray_tracer::vec3::Vec3;

fn hit_scalar(x: f64) -> Scalar {
    Scalar::from_bits(x.to_bits())
}

fn hit_vec(v: [f64; 3]) -> Vec3 {
    Vec3::new(hit_scalar(v[0]), hit_scalar(v[1]), hit_scalar(v[2]))
}

fn hit_floats(v: Vec3) -> [f64; 3] {
    [f64::from_bits(v.x.to_bits()), f64::from_bits(v.y.to_bits()), f64::from_bits(v.z.to_bits())]
}

fn hit_dot(a: [f64; 3], b: [f64; 3]) -> f64 {
    a[0] * b[0] + a[1] * b[1] + a[2] * b[2]
}

fn hit_crossing(center: [f64; 3], radius: f64, origin: [f64; 3], direction: [f64; 3], t: f64) -> Crossing {
    let point = [origin[0] + direction[0] * t, origin[1] + direction[1] * t, origin[2] + direction[2] * t];
    let outward = [
        (point[0] - center[0]) / radius,
        (point[1] - center[1]) / radius,
        (point[2] - center[2]) / radius,
    ];
    Crossing {
        t: hit_scalar(t),
        point: hit_vec(point),
        outward_normal: hit_vec(outward),
        facing: hit_scalar(hit_dot(direction, outward)),
    }
}

fn hit_probe(center: [f64; 3], radius: f64, origin: [f64; 3], direction: [f64; 3]) -> SphereProbe {
    let oc = [center[0] - origin[0], center[1] - origin[1], center[2] - origin[2]];
    let a = hit_dot(direction, direction);
    let h = hit_dot(direction, oc);
    let c = hit_dot(oc, oc) - radius * radius;
    let discriminant = h * h - a * c;
    let sqrtd = discriminant.sqrt();
    SphereProbe {
        discriminant: hit_scalar(discriminant),
        near: hit_crossing(center, radius, origin, direction, (h - sqrtd) / a),
        far: hit_crossing(center, radius, origin, direction, (h + sqrtd) / a),
    }
}

fn hit_sphere(center: [f64; 3], radius: f64, material: usize) -> Sphere {
    Sphere { center: hit_vec(center), radius: hit_scalar(radius), material: Some(material) }
}

fn hit_window() -> Interval {
    Interval::bounded_interval(hit_scalar(0.001), hit_scalar(f64::INFINITY))
}

fn hit_marked_record() -> HitRecord {
    let mut rec = HitRecord::default();
    rec.t = hit_scalar(77.0);
    rec.material = Some(9);
    rec.front_face = true;
    rec.p = hit_vec([1.0, 2.0, 3.0]);
    rec.normal = hit_vec([0.0, 1.0, 0.0]);
    rec
}

fn hit_is_marked(rec: &HitRecord) -> bool {
    rec.t.to_bits() == 77.0f64.to_bits()
        && rec.material == Some(9)
        && rec.front_face
        && hit_floats(rec.p) == [1.0, 2.0, 3.0]
        && hit_floats(rec.normal) == [0.0, 1.0, 0.0]
}

#[test]
fn default_record_is_blank() {
    let rec = HitRecord::default();
    assert_eq!(hit_floats(rec.p), [0.0, 0.0, 0.0]);
    assert_eq!(hit_floats(rec.normal), [0.0, 0.0, 0.0]);
    assert_eq!(rec.material, None);
    assert_eq!(rec.t.to_bits(), 0);
    assert!(!rec.front_face);
}

#[test]
fn default_sphere_is_a_point_of_no_material() {
    let s = Sphere::default();
    assert_eq!(hit_floats(s.center), [0.0, 0.0, 0.0]);
    assert_eq!(s.radius.to_bits(), 0);
    assert_eq!(s.material, None);
}

#[test]
fn face_normal_opposes_the_ray() {
    let outward = hit_vec([0.0, 0.0, 1.0]);
    let mut rec = hit_marked_record();
    rec.set_face_normal(hit_scalar(-1.0), &outward);
    assert!(rec.front_face);
    assert_eq!(hit_floats(rec.normal), [0.0, 0.0, 1.0]);
    assert_eq!(rec.t.to_bits(), 77.0f64.to_bits());
    assert_eq!(rec.material, Some(9));

    rec.set_face_normal(hit_scalar(0.25), &outward);
    assert!(!rec.front_face);
    assert_eq!(hit_vec([-0.0, -0.0, -1.0]).z.to_bits(), rec.normal.z.to_bits());
    assert_eq!(rec.normal.x.to_bits(), (-0.0f64).to_bits());

    rec.set_face_normal(hit_scalar(0.0), &outward);
    assert!(!rec.front_face);
    rec.set_face_normal(hit_scalar(f64::NAN), &outward);
    assert!(!rec.front_face);
}

#[test]
fn sphere_before_the_camera_is_hit_at_its_front() {
    let sphere = hit_sphere([0.0, 0.0, -1.0], 0.5, 3);
    let probe = hit_probe([0.0, 0.0, -1.0], 0.5, [0.0, 0.0, 0.0], [0.0, 0.0, -1.0]);
    let mut rec = HitRecord::default();
    assert!(sphere.hit(&probe, hit_window(), &mut rec));
    assert_eq!(f64::from_bits(rec.t.to_bits()), 0.5);
    assert_eq!(hit_floats(rec.normal), [0.0, 0.0, 1.0]);
    assert!(rec.front_face);
    assert_eq!(hit_floats(rec.p), [0.0, 0.0, -0.5]);
    assert_eq!(rec.material, Some(3));
}

#[test]
fn sphere_seen_from_inside_is_hit_at_its_back() {
    let sphere = hit_sphere([0.0, 0.0, 0.0], 2.0, 1);
    let probe = hit_probe([0.0, 0.0, 0.0], 2.0, [0.0, 0.0, 0.0], [1.0, 0.0, 0.0]);
    let mut rec = HitRecord::default();
    assert!(sphere.hit(&probe, hit_window(), &mut rec));
    assert_eq!(f64::from_bits(rec.t.to_bits()), 2.0);
    assert!(!rec.front_face);
    assert_eq!(hit_floats(rec.normal), [-1.0, -0.0, -0.0]);
    assert_eq!(hit_floats(rec.p), [2.0, 0.0, 0.0]);
}

#[test]
fn window_decides_between_the_roots() {
    let sphere = hit_sphere([0.0, 0.0, -3.0], 1.0, 0);
    let probe = hit_probe([0.0, 0.0, -3.0], 1.0, [0.0, 0.0, 0.0], [0.0, 0.0, -1.0]);
    let ask = |min: f64, max: f64| {
        let mut rec = hit_marked_record();
        let hit = sphere.hit(&probe, Interval::bounded_interval(hit_scalar(min), hit_scalar(max)), &mut rec);
        (hit, f64::from_bits(rec.t.to_bits()), hit_is_marked(&rec))
    };
    assert_eq!(ask(0.001, f64::INFINITY), (true, 2.0, false));
    assert_eq!(ask(2.0, f64::INFINITY), (true, 4.0, false));
    assert_eq!(ask(1.0, 3.0), (true, 2.0, false));
    assert_eq!(ask(0.001, 2.0), (false, 77.0, true));
    assert_eq!(ask(2.0, 4.0), (false, 77.0, true));
    assert_eq!(ask(4.0, f64::INFINITY), (false, 77.0, true));
    assert_eq!(ask(5.0, 1.0), (false, 77.0, true));
}

#[test]
fn hit_where_the_ray_starts_is_skipped() {
    let sphere = hit_sphere([0.0, 0.0, -1.0], 1.0, 0);
    let probe = hit_probe([0.0, 0.0, -1.0], 1.0, [0.0, 0.0, 0.0], [0.0, 0.0, -1.0]);
    assert_eq!(f64::from_bits(probe.near.t.to_bits()), 0.0);
    let mut rec = HitRecord::default();
    assert!(sphere.hit(&probe, hit_window(), &mut rec));
    assert_eq!(f64::from_bits(rec.t.to_bits()), 2.0);
    assert!(!rec.front_face);
    assert_eq!(hit_floats(rec.normal), [-0.0, -0.0, 1.0]);

    let grazing = hit_probe([0.0, 0.0, -1.0], 1.0, [0.0, 0.0, 0.0005], [0.0, 0.0, -1.0]);
    assert!(f64::from_bits(grazing.near.t.to_bits()) < 0.001);
    let mut rec = HitRecord::default();
    assert!(sphere.hit(&grazing, hit_window(), &mut rec));
    assert_eq!(f64::from_bits(rec.t.to_bits()), f64::from_bits(grazing.far.t.to_bits()));
}

#[test]
fn ray_past_a_sphere_misses_and_leaves_the_record() {
    let sphere = hit_sphere([0.0, 0.0, -1.0], 0.5, 0);
    let probe = hit_probe([0.0, 0.0, -1.0], 0.5, [0.0, 0.0, 0.0], [0.0, 1.0, 0.0]);
    assert!(f64::from_bits(probe.discriminant.to_bits()) < 0.0);
    let mut rec = hit_marked_record();
    assert!(!sphere.hit(&probe, hit_window(), &mut rec));
    assert!(hit_is_marked(&rec));
}

#[test]
fn ray_without_direction_hits_nothing() {
    let sphere = hit_sphere([0.0, 0.0, -1.0], 0.5, 0);
    let probe = hit_probe([0.0, 0.0, -1.0], 0.5, [0.0, 0.0, 0.0], [0.0, 0.0, 0.0]);
    let mut rec = hit_marked_record();
    assert!(!sphere.hit(&probe, hit_window(), &mut rec));
    assert!(hit_is_marked(&rec));
}

#[test]
fn list_grows_and_clears() {
    let a = hit_sphere([0.0, 0.0, -1.0], 0.5, 0);
    let b = hit_sphere([0.0, -100.5, -1.0], 100.0, 1);
    let mut world: HittableList<Sphere> = HittableList::default();
    assert_eq!(world.objects.len(), 0);
    world.add(&a);
    world.add(&b);
    assert_eq!(world.objects.len(), 2);
    assert_eq!(world.objects[0].material, Some(0));
    assert_eq!(world.objects[1].material, Some(1));
    world.clear();
    assert_eq!(world.objects.len(), 0);
}

#[test]
fn empty_list_is_never_hit() {
    let world: HittableList<Sphere> = HittableList::default();
    let mut rec = hit_marked_record();
    assert!(!world.hit(&Vec::new(), hit_window(), &mut rec));
    assert!(hit_is_marked(&rec));
}

#[test]
fn list_reports_the_nearest_member() {
    let centers = [[0.0, 0.0, -5.0], [0.0, 0.0, -2.0], [0.0, 0.0, -9.0], [0.0, 0.0, -3.5]];
    let spheres: Vec<Sphere> =
        centers.iter().enumerate().map(|(i, c)| hit_sphere(*c, 0.5, i)).collect();
    let orders: [[usize; 4]; 4] = [[0, 1, 2, 3], [3, 2, 1, 0], [1, 0, 3, 2], [2, 3, 0, 1]];
    for order in orders {
        let mut world: HittableList<Sphere> = HittableList::default();
        let mut probes = Vec::new();
        for i in order {
            world.add(&spheres[i]);
            probes.push(hit_probe(centers[i], 0.5, [0.0, 0.0, 0.0], [0.0, 0.0, -1.0]));
        }
        let mut rec = HitRecord::default();
        assert!(world.hit(&probes, hit_window(), &mut rec));
        assert_eq!(f64::from_bits(rec.t.to_bits()), 1.5);
        assert_eq!(rec.material, Some(1));
        assert!(rec.front_face);
    }
}

#[test]
fn of_two_hits_at_one_distance_the_first_stays() {
    let a = hit_sphere([0.0, 0.0, -2.0], 0.5, 10);
    let b = hit_sphere([0.0, 0.0, -2.0], 0.5, 20);
    let probe = hit_probe([0.0, 0.0, -2.0], 0.5, [0.0, 0.0, 0.0], [0.0, 0.0, -1.0]);
    let mut world: HittableList<Sphere> = HittableList::default();
    world.add(&a);
    world.add(&b);
    let mut rec = HitRecord::default();
    assert!(world.hit(&vec![probe, probe], hit_window(), &mut rec));
    assert_eq!(rec.material, Some(10));
    assert_eq!(f64::from_bits(rec.t.to_bits()), 1.5);
}

#[test]
fn list_hit_is_the_least_of_the_members_hits() {
    let centers = [[0.3, 0.1, -4.0], [-0.2, 0.0, -2.5], [0.0, -100.5, -1.0], [1.0, 0.0, -1.0], [0.1, 0.1, -7.0]];
    let radii = [0.7, 0.4, 100.0, 0.5, 2.0];
    let spheres: Vec<Sphere> =
        centers.iter().zip(radii.iter()).enumerate().map(|(i, (c, r))| hit_sphere(*c, *r, i)).collect();
    let mut world: HittableList<Sphere> = HittableList::default();
    for s in &spheres {
        world.add(s);
    }
    let directions =
        [[0.0, 0.0, -1.0], [0.1, 0.0, -1.0], [0.5, -0.2, -1.0], [0.0, -1.0, -0.1], [1.0, 0.0, -1.0], [0.0, 1.0, 0.0]];
    for d in directions {
        let probes: Vec<SphereProbe> =
            (0..spheres.len()).map(|i| hit_probe(centers[i], radii[i], [0.0, 0.0, 0.0], d)).collect();
        let mut least: Option<(f64, usize)> = None;
        for (i, s) in spheres.iter().enumerate() {
            let mut rec = HitRecord::default();
            if s.hit(&probes[i], hit_window(), &mut rec) {
                let t = f64::from_bits(rec.t.to_bits());
                if least.map_or(true, |(best, _)| t < best) {
                    least = Some((t, i));
                }
            }
        }
        let mut rec = hit_marked_record();
        let hit = world.hit(&probes, hit_window(), &mut rec);
        match least {
            Some((t, i)) => {
                assert!(hit);
                assert_eq!(f64::from_bits(rec.t.to_bits()), t);
                assert_eq!(rec.material, Some(i));
            }
            None => {
                assert!(!hit);
                assert!(hit_is_marked(&rec));
            }
        }
    }
}

#[test]
fn ray_aimed_away_from_every_sphere_falls_to_the_sky() {
    let centers = [[0.0, -100.5, -1.0], [0.0, 0.0, -1.2], [-1.0, 0.0, -1.0], [1.0, 0.0, -1.0]];
    let radii = [100.0, 0.5, 0.5, 0.5];
    let spheres: Vec<Sphere> =
        centers.iter().zip(radii.iter()).enumerate().map(|(i, (c, r))| hit_sphere(*c, *r, i)).collect();
    let mut world: HittableList<Sphere> = HittableList::default();
    for s in &spheres {
        world.add(s);
    }
    let probes: Vec<SphereProbe> =
        (0..spheres.len()).map(|i| hit_probe(centers[i], radii[i], [0.0, 0.0, 0.0], [0.0, 1.0, 1.0])).collect();
    for (i, s) in spheres.iter().enumerate() {
        let mut rec = hit_marked_record();
        assert!(!s.hit(&probes[i], hit_window(), &mut rec));
    }
    let mut rec = hit_marked_record();
    let hit = world.hit(&probes, hit_window(), &mut rec);
    assert!(!hit);
    assert!(hit_is_marked(&rec));
    let cast = if hit { Outcome::Scattered } else { Outcome::Miss };
    assert_eq!(Camera::ray_color(50, cast), Trace::Sky);
    assert_eq!(Camera::ray_color(1, cast), Trace::Sky);
}
