use vstd::prelude::*;
use crate::ray::Ray;
use crate::vec3::{dot, lemma_i32_product, spec_add, spec_dot, spec_scale, spec_square_len, spec_sub, Point, Triple, Vec3};

verus! {

pub open spec fn in_i128(x: int) -> bool {
    i128::MIN <= x <= i128::MAX
}

/// Coefficient of `t * t` in `|origin + t * direction - center|^2 - radius^2`.
pub open spec fn quad_a(direction: Triple) -> int {
    spec_dot(direction, direction)
}

/// Coefficient of `t`.
pub open spec fn quad_b(center: Triple, origin: Triple, direction: Triple) -> int {
    2 * spec_dot(spec_sub(origin, center), direction)
}

/// Constant term.
pub open spec fn quad_c(center: Triple, radius: int, origin: Triple) -> int {
    let oc = spec_sub(origin, center);
    spec_dot(oc, oc) - radius * radius
}

pub open spec fn discriminant(center: Triple, radius: int, origin: Triple, direction: Triple) -> int {
    let b = quad_b(center, origin, direction);
    b * b - 4 * quad_a(direction) * quad_c(center, radius, origin)
}

/// The quadratic of a ray and a sphere can be worked out in `i128`.
pub open spec fn quad_fits(center: Triple, radius: int, origin: Triple, direction: Triple) -> bool {
    let a = quad_a(direction);
    let b = quad_b(center, origin, direction);
    let c = quad_c(center, radius, origin);
    in_i128(b * b) && in_i128(4 * a * c) && in_i128(b * b - 4 * a * c)
}

/// Every component lies within `-bound ..= bound`.
pub open spec fn within(t: Triple, bound: int) -> bool {
    -bound <= t.0 <= bound && -bound <= t.1 <= bound && -bound <= t.2 <= bound
}

/// Coordinates and radius within `2^29` in absolute value are small enough for
/// the quadratic of a ray and a sphere to fit in `i128`.
pub proof fn lemma_small_coordinates_fit(center: Triple, radius: int, origin: Triple, direction: Triple)
    requires
        within(center, 0x2000_0000),
        within(origin, 0x2000_0000),
        within(direction, 0x2000_0000),
        -0x2000_0000 <= radius <= 0x2000_0000,
    ensures
        quad_fits(center, radius, origin, direction),
{
    let d = direction;
    let oc = spec_sub(origin, center);
    let big: int = 0x2000_0000;
    lemma_bounded_product(oc.0, d.0, 2 * big, big);
    lemma_bounded_product(oc.1, d.1, 2 * big, big);
    lemma_bounded_product(oc.2, d.2, 2 * big, big);
    lemma_bounded_product(oc.0, oc.0, 2 * big, 2 * big);
    lemma_bounded_product(oc.1, oc.1, 2 * big, 2 * big);
    lemma_bounded_product(oc.2, oc.2, 2 * big, 2 * big);
    lemma_bounded_product(d.0, d.0, big, big);
    lemma_bounded_product(d.1, d.1, big, big);
    lemma_bounded_product(d.2, d.2, big, big);
    lemma_bounded_product(radius, radius, big, big);
    assert(0 <= d.0 * d.0 && 0 <= d.1 * d.1 && 0 <= d.2 * d.2) by (nonlinear_arith);
    assert(0 <= oc.0 * oc.0 && 0 <= oc.1 * oc.1 && 0 <= oc.2 * oc.2) by (nonlinear_arith);
    assert(0 <= radius * radius) by (nonlinear_arith);
    let a = quad_a(d);
    let b = quad_b(center, origin, d);
    let c = quad_c(center, radius, origin);
    let lim: int = 0x4000_0000_0000_0000_0000_0000_0000_0000;
    assert(0 <= a <= 3 * (big * big));
    assert(-6 * (big * big) * 2 <= b <= 6 * (big * big) * 2);
    assert(-(big * big) <= c <= 12 * (big * big));
    let bb = 12 * (big * big);
    assert(0 <= b * b <= bb * bb) by (nonlinear_arith)
        requires
            -bb <= b <= bb,
    ;
    assert(-(3 * (big * big)) * (big * big) <= a * c <= (3 * (big * big)) * bb) by (nonlinear_arith)
        requires
            0 <= a <= 3 * (big * big),
            -(big * big) <= c <= bb,
            bb == 12 * (big * big),
    ;
    assert(big * big == 0x400_0000_0000_0000);
    assert(bb * bb + 4 * ((3 * (big * big)) * bb) < lim) by (nonlinear_arith)
        requires
            big * big == 0x400_0000_0000_0000,
            bb == 12 * (big * big),
            lim == 0x4000_0000_0000_0000_0000_0000_0000_0000,
    ;
    assert(4 * a * c == 4 * (a * c)) by (nonlinear_arith);
}

proof fn lemma_bounded_product(x: int, y: int, bx: int, bound_y: int)
    requires
        -bx <= x <= bx,
        -bound_y <= y <= bound_y,
    ensures
        -(bx * bound_y) <= x * y <= bx * bound_y,
{
    assert(-(bx * bound_y) <= x * y <= bx * bound_y) by (nonlinear_arith)
        requires
            -bx <= x <= bx,
            -bound_y <= y <= bound_y,
    ;
}

/// The smaller root `(neg_b - sqrt(disc)) / two_a` of a quadratic, held exactly.
#[derive(Debug, Clone, Copy, PartialEq, Eq, Structural)]
pub struct Root {
    pub neg_b: i128,
    pub disc: i128,
    pub two_a: i128,
}

/// Intersects a ray with the sphere of the given center and radius. `None`
/// when the discriminant is negative; otherwise the smaller root of the
/// quadratic in `t`.
pub fn hit_sphere(center: Point, radius: i32, ray: &Ray) -> (r: Option<Root>)
    requires
        quad_fits(center.comps(), radius as int, ray.origin.comps(), ray.direction.comps()),
    ensures
        ({
            let (c, o, d) = (center.comps(), ray.origin.comps(), ray.direction.comps());
            match r {
                None => discriminant(c, radius as int, o, d) < 0,
                Some(root) => {
                    &&& discriminant(c, radius as int, o, d) >= 0
                    &&& root.disc == discriminant(c, radius as int, o, d)
                    &&& root.neg_b == -quad_b(c, o, d)
                    &&& root.two_a == 2 * quad_a(d)
                },
            }
        }),
{
    let o = ray.origin;
    let d = ray.direction;
    let ocx = o.x as i128 - center.x as i128;
    let ocy = o.y as i128 - center.y as i128;
    let ocz = o.z as i128 - center.z as i128;
    let a = dot(&d, &d);
    proof {
        assert(-0x1_0000_0000 <= ocx <= 0x1_0000_0000);
        lemma_oc_product(ocx as int, d.x as int);
        lemma_oc_product(ocy as int, d.y as int);
        lemma_oc_product(ocz as int, d.z as int);
        lemma_oc_product(ocx as int, ocx as int);
        lemma_oc_product(ocy as int, ocy as int);
        lemma_oc_product(ocz as int, ocz as int);
        lemma_i32_product(radius as int, radius as int);
        lemma_i32_product(d.x as int, d.x as int);
        lemma_i32_product(d.y as int, d.y as int);
        lemma_i32_product(d.z as int, d.z as int);
        assert(0 <= d.x * d.x && 0 <= d.y * d.y && 0 <= d.z * d.z) by (nonlinear_arith);
    }
    let b = 2 * (ocx * d.x as i128 + ocy * d.y as i128 + ocz * d.z as i128);
    let c = ocx * ocx + ocy * ocy + ocz * ocz - radius as i128 * radius as i128;
    let disc = b * b - 4 * a * c;
    if disc < 0 {
        None
    } else {
        Some(Root { neg_b: -b, disc: disc, two_a: 2 * a })
    }
}

/// Scaling a ray's direction by `k` scales the discriminant by `k * k`, so
/// whether a ray with a nonzero scale of the direction meets the sphere does
/// not depend on the scale.
pub proof fn lemma_discriminant_scale(center: Triple, radius: int, origin: Triple, direction: Triple, k: int)
    ensures
        discriminant(center, radius, origin, spec_scale(direction, k)) == k * k * discriminant(
            center,
            radius,
            origin,
            direction,
        ),
        k != 0 ==> (discriminant(center, radius, origin, spec_scale(direction, k)) < 0
            <==> discriminant(center, radius, origin, direction) < 0),
{
    let d = direction;
    let kd = spec_scale(d, k);
    let oc = spec_sub(origin, center);
    let a = quad_a(d);
    let b = quad_b(center, origin, d);
    let c = quad_c(center, radius, origin);
    lemma_scaled_square(d.0, k);
    lemma_scaled_square(d.1, k);
    lemma_scaled_square(d.2, k);
    assert(quad_a(kd) == k * k * a) by (nonlinear_arith)
        requires
            a == d.0 * d.0 + d.1 * d.1 + d.2 * d.2,
            quad_a(kd) == kd.0 * kd.0 + kd.1 * kd.1 + kd.2 * kd.2,
            kd.0 * kd.0 == k * k * (d.0 * d.0),
            kd.1 * kd.1 == k * k * (d.1 * d.1),
            kd.2 * kd.2 == k * k * (d.2 * d.2),
    ;
    lemma_scaled_product(oc.0, d.0, k);
    lemma_scaled_product(oc.1, d.1, k);
    lemma_scaled_product(oc.2, d.2, k);
    assert(quad_b(center, origin, kd) == k * b) by (nonlinear_arith)
        requires
            b == 2 * (oc.0 * d.0 + oc.1 * d.1 + oc.2 * d.2),
            quad_b(center, origin, kd) == 2 * (oc.0 * kd.0 + oc.1 * kd.1 + oc.2 * kd.2),
            oc.0 * kd.0 == k * (oc.0 * d.0),
            oc.1 * kd.1 == k * (oc.1 * d.1),
            oc.2 * kd.2 == k * (oc.2 * d.2),
    ;
    let dk = discriminant(center, radius, origin, kd);
    let d1 = discriminant(center, radius, origin, d);
    assert(dk == k * k * d1) by (nonlinear_arith)
        requires
            dk == (k * b) * (k * b) - 4 * (k * k * a) * c,
            d1 == b * b - 4 * a * c,
    ;
    if k != 0 {
        assert(k * k > 0) by (nonlinear_arith)
            requires
                k != 0,
        ;
        assert(dk < 0 <==> d1 < 0) by (nonlinear_arith)
            requires
                dk == k * k * d1,
                k * k > 0,
        ;
    }
}

/// Where the discriminant is the square of `s >= 0`, the smaller root
/// `t = (-b - s) / (2 * a)` is where the ray meets the sphere: the point
/// `origin + t * direction`, scaled by `2 * a` to stay integral, lies at
/// distance `radius * 2 * a` from the center scaled the same way.
pub proof fn lemma_root_on_sphere(center: Triple, radius: int, origin: Triple, direction: Triple, s: int)
    requires
        s >= 0,
        s * s == discriminant(center, radius, origin, direction),
    ensures
        ({
            let td = 2 * quad_a(direction);
            let tn = -quad_b(center, origin, direction) - s;
            let p = spec_add(spec_scale(origin, td), spec_scale(direction, tn));
            spec_square_len(spec_sub(p, spec_scale(center, td))) == radius * radius * (td * td)
        }),
{
    let d = direction;
    let oc = spec_sub(origin, center);
    let a = quad_a(d);
    let td = 2 * a;
    let tn = -quad_b(center, origin, d) - s;
    let p = spec_add(spec_scale(origin, td), spec_scale(d, tn));
    let q = spec_sub(p, spec_scale(center, td));
    assert(q == spec_add(spec_scale(oc, td), spec_scale(d, tn))) by {
        lemma_sub_scaled(origin.0, center.0, td);
        lemma_sub_scaled(origin.1, center.1, td);
        lemma_sub_scaled(origin.2, center.2, td);
    }
    lemma_square_of_sum(oc.0, d.0, td, tn);
    lemma_square_of_sum(oc.1, d.1, td, tn);
    lemma_square_of_sum(oc.2, d.2, td, tn);
    let o = spec_dot(oc, oc);
    let h = spec_dot(oc, d);
    let len = spec_square_len(q);
    let (t1, t2, t3) = (td * td, td * tn, tn * tn);
    lemma_sum3_times(oc.0 * oc.0, oc.1 * oc.1, oc.2 * oc.2, t1);
    lemma_sum3_times(oc.0 * d.0, oc.1 * d.1, oc.2 * d.2, t2);
    lemma_sum3_times(d.0 * d.0, d.1 * d.1, d.2 * d.2, t3);
    assert(len == o * t1 + 2 * (h * t2) + a * t3);
    let rr = radius * radius;
    let (a2o, ahh, ahs, ass, a2r) = (a * (a * o), a * (h * h), a * (h * s), a * (s * s), a * (a * rr));
    assert(o * t1 == 4 * a2o) by (nonlinear_arith)
        requires
            t1 == (2 * a) * (2 * a),
            a2o == a * (a * o),
    ;
    assert(h * t2 == -4 * ahh - 2 * ahs) by (nonlinear_arith)
        requires
            t2 == (2 * a) * (-2 * h - s),
            ahh == a * (h * h),
            ahs == a * (h * s),
    ;
    assert(a * t3 == 4 * ahh + 4 * ahs + ass) by (nonlinear_arith)
        requires
            t3 == (-2 * h - s) * (-2 * h - s),
            ahh == a * (h * h),
            ahs == a * (h * s),
            ass == a * (s * s),
    ;
    assert(ass == 4 * ahh - 4 * a2o + 4 * a2r) by (nonlinear_arith)
        requires
            s * s == (2 * h) * (2 * h) - 4 * a * (o - rr),
            ahh == a * (h * h),
            ass == a * (s * s),
            a2o == a * (a * o),
            a2r == a * (a * rr),
    ;
    assert(rr * t1 == 4 * a2r) by (nonlinear_arith)
        requires
            t1 == (2 * a) * (2 * a),
            a2r == a * (a * rr),
    ;
}

proof fn lemma_sum3_times(x: int, y: int, z: int, t: int)
    ensures
        x * t + y * t + z * t == (x + y + z) * t,
{
    assert(x * t + y * t + z * t == (x + y + z) * t) by (nonlinear_arith);
}

proof fn lemma_sub_scaled(x: int, y: int, k: int)
    ensures
        x * k - y * k == (x - y) * k,
{
    assert(x * k - y * k == (x - y) * k) by (nonlinear_arith);
}

proof fn lemma_square_of_sum(x: int, y: int, p: int, q: int)
    ensures
        (x * p + y * q) * (x * p + y * q) == (x * x) * (p * p) + 2 * ((x * y) * (p * q)) + (y * y)
            * (q * q),
{
    let (u, v) = (x * p, y * q);
    assert((u + v) * (u + v) == u * u + 2 * (u * v) + v * v) by (nonlinear_arith);
    assert(u * u == (x * x) * (p * p)) by (nonlinear_arith)
        requires
            u == x * p,
    ;
    assert(u * v == (x * y) * (p * q)) by (nonlinear_arith)
        requires
            u == x * p,
            v == y * q,
    ;
    assert(v * v == (y * y) * (q * q)) by (nonlinear_arith)
        requires
            v == y * q,
    ;
}

proof fn lemma_scaled_square(x: int, k: int)
    ensures
        (x * k) * (x * k) == k * k * (x * x),
{
    assert((x * k) * (x * k) == k * k * (x * x)) by (nonlinear_arith);
}

proof fn lemma_scaled_product(x: int, y: int, k: int)
    ensures
        x * (y * k) == k * (x * y),
{
    assert(x * (y * k) == k * (x * y)) by (nonlinear_arith);
}

proof fn lemma_oc_product(p: int, q: int)
    requires
        -0x1_0000_0000 <= p <= 0x1_0000_0000,
        -0x1_0000_0000 <= q <= 0x1_0000_0000,
    ensures
        -0x1_0000_0000_0000_0000 <= p * q <= 0x1_0000_0000_0000_0000,
{
    assert(-0x1_0000_0000_0000_0000 <= p * q <= 0x1_0000_0000_0000_0000) by (nonlinear_arith)
        requires
            -0x1_0000_0000 <= p <= 0x1_0000_0000,
            -0x1_0000_0000 <= q <= 0x1_0000_0000,
    ;
}

} // verus!
