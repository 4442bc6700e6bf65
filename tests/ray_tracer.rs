use ray_tracer::camera::pixel_at;
use ray_tracer::sphere::hit_sphere;
use ray_tracer::{cross, dot, Camera, Color, Point, Ray, Root, Vec3};

#[test]
fn it_works() {
    assert_eq!(2 + 2, 4);
}

#[test]
fn dot_of_self_is_square_len() {
    let v = Point::new(3, -4, 12);
    assert_eq!(dot(&v, &v), v.square_len());
    assert_eq!(v.square_len(), 169);
    let c = Color::new(1, 2, 3);
    assert_eq!(dot(&c, &Color::new(4, 5, 6)), 32);
}

#[test]
fn cross_is_the_standard_product() {
    let a = Point::new(1, 2, 3);
    let b = Point::new(4, 5, 6);
    let mut r = Point::new(0, 0, 0);
    cross(&a, &b, &mut r);
    assert_eq!(r, Point::new(-3, 6, -3));
    cross(&Point::new(0, 0, 1), &Point::new(1, 0, 0), &mut r);
    assert_eq!(r, Point::new(0, 1, 0));
    cross(&Point::new(1, 1, 0), &Point::new(0, 0, 1), &mut r);
    assert_eq!(r, Point::new(1, -1, 0));
    assert_eq!(dot(&r, &Point::new(1, 1, 0)), 0);
    assert_eq!(dot(&r, &Point::new(0, 0, 1)), 0);
}

#[test]
fn cross_is_anti_commutative() {
    let a = Point::new(7, -2, 5);
    let b = Point::new(-3, 11, 4);
    let mut ab = Point::new(0, 0, 0);
    let mut ba = Point::new(0, 0, 0);
    cross(&a, &b, &mut ab);
    cross(&b, &a, &mut ba);
    assert_eq!(ab, ba.neg());
}

#[test]
fn vector_arithmetic() {
    let a = Point::new(1, 2, 3);
    let b = Point::new(4, -5, 6);
    assert_eq!(a.add(&b), Point::new(5, -3, 9));
    assert_eq!(a.sub(&b), Point::new(-3, 7, -3));
    assert_eq!(a.mul(&b), Point::new(4, -10, 18));
    assert_eq!(a.add_scalar(1), Point::new(2, 3, 4));
    assert_eq!(a.sub_scalar(1), Point::new(0, 1, 2));
    assert_eq!(a.scale(-2), Point::new(-2, -4, -6));
    let mut m = a;
    m.add_assign(&b);
    assert_eq!(m, Point::new(5, -3, 9));
    m.sub_assign(&b);
    assert_eq!(m, a);
    m.mul_assign(&b);
    assert_eq!(m, Point::new(4, -10, 18));
    m.scale_assign(3);
    assert_eq!(m, Point::new(12, -30, 54));
    assert_eq!((m.e0(), m.e1(), m.e2()), (12, -30, 54));
    m.add_scalar_assign(2);
    assert_eq!(m, Point::new(14, -28, 56));
    m.sub_scalar_assign(4);
    assert_eq!(m, Point::new(10, -32, 52));
    let c = Color::new(10, 20, 30);
    assert_eq!((c.r, c.g, c.b), (10, 20, 30));
}

#[test]
fn point_at_parameter_zero_and_one() {
    let ray = Ray::new(Point::new(1, 2, 3), Point::new(-4, 5, 6));
    assert_eq!(ray.point_at_parameter(0), ray.origin);
    assert_eq!(ray.point_at_parameter(1), ray.origin.add(&ray.direction));
    assert_eq!(ray.point_at_parameter(3), Point::new(-11, 17, 21));
}

fn root_value(root: &Root) -> f64 {
    (root.neg_b as f64 - (root.disc as f64).sqrt()) / root.two_a as f64
}

#[test]
fn ray_toward_sphere_hits_at_half() {
    // In half units: the sphere at (0, 0, -1) with radius 0.5 is at (0, 0, -2)
    // with radius 1, and the ray toward (0, 0, -1) has direction (0, 0, -2).
    let ray = Ray::new(Point::new(0, 0, 0), Point::new(0, 0, -2));
    let root = hit_sphere(Point::new(0, 0, -2), 1, &ray).unwrap();
    assert_eq!(root, Root { neg_b: 8, disc: 16, two_a: 8 });
    assert!((root_value(&root) - 0.5).abs() < 1e-9);
}

#[test]
fn ray_away_from_sphere_misses() {
    let ray = Ray::new(Point::new(0, 0, 0), Point::new(1, 0, 0));
    assert_eq!(hit_sphere(Point::new(0, 0, -2), 1, &ray), None);
    let far = Ray::new(Point::new(0, 0, 100), Point::new(1, 0, 0));
    assert_eq!(hit_sphere(Point::new(0, 0, -2), 1, &far), None);
}

#[test]
fn sphere_behind_the_ray_gives_a_negative_root() {
    // The test does not look at the direction of travel.
    let ray = Ray::new(Point::new(0, 0, 100), Point::new(0, 0, 1));
    let root = hit_sphere(Point::new(0, 0, -2), 1, &ray).unwrap();
    assert_eq!(root, Root { neg_b: -204, disc: 4, two_a: 2 });
    assert!((root_value(&root) + 103.0).abs() < 1e-9);
}

#[test]
fn tangent_ray_has_zero_discriminant() {
    let ray = Ray::new(Point::new(0, 1, 0), Point::new(0, 0, -1));
    let root = hit_sphere(Point::new(0, 0, -2), 1, &ray).unwrap();
    assert_eq!(root.disc, 0);
    assert!((root_value(&root) - 2.0).abs() < 1e-9);
}

#[test]
fn ray_starting_inside_takes_smaller_root() {
    let ray = Ray::new(Point::new(0, 0, -2), Point::new(0, 0, -1));
    let root = hit_sphere(Point::new(0, 0, -2), 1, &ray).unwrap();
    assert!((root_value(&root) + 1.0).abs() < 1e-9);
}

fn scene_camera() -> Camera {
    Camera::new(
        Point::new(-4, -2, -2),
        Point::new(8, 0, 0),
        Point::new(0, 4, 0),
        Point::new(0, 0, 0),
    )
}

#[test]
fn pixels_run_from_the_top_row() {
    assert_eq!(pixel_at(200, 100, 0), (0, 99));
    assert_eq!(pixel_at(200, 100, 199), (199, 99));
    assert_eq!(pixel_at(200, 100, 200), (0, 98));
    assert_eq!(pixel_at(200, 100, 19_999), (199, 0));
}

fn sky_pixel(x: f64, y: f64, z: f64) -> Vec<i64> {
    let unit_y = y / (x * x + y * y + z * z).sqrt();
    let t = 0.5 * (unit_y + 1.0);
    let rgb = [
        ((1.0 - t) + 0.5 * t) * 255.9,
        ((1.0 - t) + 0.7 * t) * 255.9,
        ((1.0 - t) + 1.0 * t) * 255.9,
    ];
    rgb.iter().map(|c| *c as i64).collect()
}

fn as_f64(p: &Point) -> (f64, f64, f64) {
    (p.x as f64, p.y as f64, p.z as f64)
}

#[test]
fn bottom_left_pixel_is_sky_color() {
    let (nx, ny) = (200, 100);
    let ray = scene_camera().pixel_ray(nx, ny, 0, 0);
    assert_eq!(ray.origin, Point::new(0, 0, 0));
    assert_eq!(ray.direction, Point::new(-80_000, -40_000, -40_000));
    assert_eq!(hit_sphere(Point::new(0, 0, -2), 1, &ray), None);
    let (x, y, z) = as_f64(&ray.direction);
    let ints = sky_pixel(x, y, z);
    assert_eq!(ints, vec![218, 233, 255]);
    assert_eq!(ints, sky_pixel(-2.0, -1.0, -1.0));
    assert!(ints.iter().all(|c| (0..=255).contains(c)));
}

#[test]
fn first_pixel_written_is_sky_color() {
    let (nx, ny) = (200, 100);
    let (i, j) = pixel_at(nx, ny, 0);
    assert_eq!((i, j), (0, 99));
    let ray = scene_camera().pixel_ray(nx, ny, i, j);
    assert_eq!(ray.direction, Point::new(-80_000, 39_200, -40_000));
    assert_eq!(hit_sphere(Point::new(0, 0, -2), 1, &ray), None);
    let (x, y, z) = as_f64(&ray.direction);
    let ints = sky_pixel(x, y, z);
    assert_eq!(ints, vec![166, 202, 255]);
    assert_eq!(ints, sky_pixel(-2.0, -1.0 + 2.0 * 0.99, -1.0));
}

#[test]
fn center_pixel_hits_sphere() {
    let ray = scene_camera().pixel_ray(200, 100, 100, 50);
    assert_eq!(ray.direction, Point::new(0, 0, -40_000));
    assert!(hit_sphere(Point::new(0, 0, -2), 1, &ray).is_some());
}

fn render() -> Vec<(i32, i32, Option<Root>)> {
    let camera = scene_camera();
    let (nx, ny) = (20, 10);
    let mut out = Vec::new();
    for k in 0..(nx as i64 * ny as i64) {
        let (i, j) = pixel_at(nx, ny, k);
        let ray = camera.pixel_ray(nx, ny, i, j);
        out.push((i, j, hit_sphere(Point::new(0, 0, -2), 1, &ray)));
    }
    out
}

#[test]
fn rendering_twice_gives_the_same_result() {
    let first = render();
    assert_eq!(first, render());
    assert_eq!(first.len(), 200);
    assert!(first.iter().any(|p| p.2.is_some()));
    assert!(first.iter().any(|p| p.2.is_none()));
}

#[test]
fn scaling_the_direction_scales_the_discriminant() {
    let center = Point::new(1, 2, -6);
    let origin = Point::new(0, 1, 0);
    let d = Point::new(1, 0, -4);
    let base = hit_sphere(center, 2, &Ray::new(origin, d)).unwrap();
    let scaled = hit_sphere(center, 2, &Ray::new(origin, d.scale(3))).unwrap();
    assert_eq!(scaled.disc, 9 * base.disc);
    assert!((root_value(&scaled) * 3.0 - root_value(&base)).abs() < 1e-9);
    let away = Point::new(5, 0, 1);
    assert_eq!(hit_sphere(center, 2, &Ray::new(origin, away)), None);
    assert_eq!(hit_sphere(center, 2, &Ray::new(origin, away.scale(-7))), None);
}

#[test]
fn exact_root_lands_on_the_sphere() {
    // The discriminant 16 is 4 squared: t = (8 - 4) / 8 exactly.
    let center = Point::new(0, 0, -2);
    let ray = Ray::new(Point::new(0, 0, 0), Point::new(0, 0, -2));
    let root = hit_sphere(center, 1, &ray).unwrap();
    let (tn, td) = (root.neg_b - 4, root.two_a);
    let o = ray.origin;
    let d = ray.direction;
    let q = [
        o.x as i128 * td + d.x as i128 * tn - center.x as i128 * td,
        o.y as i128 * td + d.y as i128 * tn - center.y as i128 * td,
        o.z as i128 * td + d.z as i128 * tn - center.z as i128 * td,
    ];
    assert_eq!(q.iter().map(|c| c * c).sum::<i128>(), td * td);
}
