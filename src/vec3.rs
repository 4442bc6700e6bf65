use vstd::prelude::*;

verus! {

/// The three components of a vector, as mathematical integers.
pub type Triple = (int, int, int);

pub open spec fn in_i32(x: int) -> bool {
    i32::MIN <= x <= i32::MAX
}

/// Every component fits in an `i32`.
pub open spec fn fits(t: Triple) -> bool {
    in_i32(t.0) && in_i32(t.1) && in_i32(t.2)
}

pub open spec fn spec_add(a: Triple, b: Triple) -> Triple {
    (a.0 + b.0, a.1 + b.1, a.2 + b.2)
}

pub open spec fn spec_sub(a: Triple, b: Triple) -> Triple {
    (a.0 - b.0, a.1 - b.1, a.2 - b.2)
}

pub open spec fn spec_mul(a: Triple, b: Triple) -> Triple {
    (a.0 * b.0, a.1 * b.1, a.2 * b.2)
}

pub open spec fn spec_neg(a: Triple) -> Triple {
    (-a.0, -a.1, -a.2)
}

pub open spec fn spec_add_scalar(a: Triple, k: int) -> Triple {
    (a.0 + k, a.1 + k, a.2 + k)
}

pub open spec fn spec_sub_scalar(a: Triple, k: int) -> Triple {
    (a.0 - k, a.1 - k, a.2 - k)
}

pub open spec fn spec_scale(a: Triple, k: int) -> Triple {
    (a.0 * k, a.1 * k, a.2 * k)
}

pub open spec fn spec_dot(a: Triple, b: Triple) -> int {
    a.0 * b.0 + a.1 * b.1 + a.2 * b.2
}

pub open spec fn spec_square_len(a: Triple) -> int {
    a.0 * a.0 + a.1 * a.1 + a.2 * a.2
}

/// The cross product.
pub open spec fn spec_cross(a: Triple, b: Triple) -> Triple {
    (a.1 * b.2 - a.2 * b.1, a.2 * b.0 - a.0 * b.2, a.0 * b.1 - a.1 * b.0)
}

/// A value with three integer components. `Point` and `Color` both have
/// this shape, but the operations below only combine two values of one kind.
pub trait Vec3: Sized {
    spec fn comps(&self) -> Triple;

    fn e0(&self) -> (r: i32)
        ensures
            r == self.comps().0,
    ;

    fn e1(&self) -> (r: i32)
        ensures
            r == self.comps().1,
    ;

    fn e2(&self) -> (r: i32)
        ensures
            r == self.comps().2,
    ;

    fn new(e0: i32, e1: i32, e2: i32) -> (r: Self)
        ensures
            r.comps() == (e0 as int, e1 as int, e2 as int),
    ;

    /// Sum of the squares of the components.
    fn square_len(&self) -> (r: i128)
        ensures
            r == spec_square_len(self.comps()),
    {
        let (e0, e1, e2) = (self.e0() as i128, self.e1() as i128, self.e2() as i128);
        proof {
            lemma_i32_product(e0 as int, e0 as int);
            lemma_i32_product(e1 as int, e1 as int);
            lemma_i32_product(e2 as int, e2 as int);
        }
        e0 * e0 + e1 * e1 + e2 * e2
    }
    /// Component-wise sum of two values of one kind.
    fn add(&self, rhs: &Self) -> (r: Self)
        requires
            fits(spec_add(self.comps(), rhs.comps())),
        ensures
            r.comps() == spec_add(self.comps(), rhs.comps()),
    {
        let e0 = (self.e0() as i64 + rhs.e0() as i64) as i32;
        let e1 = (self.e1() as i64 + rhs.e1() as i64) as i32;
        let e2 = (self.e2() as i64 + rhs.e2() as i64) as i32;
        Self::new(e0, e1, e2)
    }

    /// Component-wise difference of two values of one kind.
    fn sub(&self, rhs: &Self) -> (r: Self)
        requires
            fits(spec_sub(self.comps(), rhs.comps())),
        ensures
            r.comps() == spec_sub(self.comps(), rhs.comps()),
    {
        let e0 = (self.e0() as i64 - rhs.e0() as i64) as i32;
        let e1 = (self.e1() as i64 - rhs.e1() as i64) as i32;
        let e2 = (self.e2() as i64 - rhs.e2() as i64) as i32;
        Self::new(e0, e1, e2)
    }

    /// Component-wise product of two values of one kind.
    fn mul(&self, rhs: &Self) -> (r: Self)
        requires
            fits(spec_mul(self.comps(), rhs.comps())),
        ensures
            r.comps() == spec_mul(self.comps(), rhs.comps()),
    {
        let (a0, a1, a2) = (self.e0(), self.e1(), self.e2());
        let (b0, b1, b2) = (rhs.e0(), rhs.e1(), rhs.e2());
        proof {
            lemma_i32_product(a0 as int, b0 as int);
            lemma_i32_product(a1 as int, b1 as int);
            lemma_i32_product(a2 as int, b2 as int);
        }
        let e0 = (a0 as i64 * b0 as i64) as i32;
        let e1 = (a1 as i64 * b1 as i64) as i32;
        let e2 = (a2 as i64 * b2 as i64) as i32;
        Self::new(e0, e1, e2)
    }

    /// Each component negated.
    fn neg(&self) -> (r: Self)
        requires
            fits(spec_neg(self.comps())),
        ensures
            r.comps() == spec_neg(self.comps()),
    {
        let e0 = (-(self.e0() as i64)) as i32;
        let e1 = (-(self.e1() as i64)) as i32;
        let e2 = (-(self.e2() as i64)) as i32;
        Self::new(e0, e1, e2)
    }

    /// The scalar `k` added to every component.
    fn add_scalar(&self, k: i32) -> (r: Self)
        requires
            fits(spec_add_scalar(self.comps(), k as int)),
        ensures
            r.comps() == spec_add_scalar(self.comps(), k as int),
    {
        let e0 = (self.e0() as i64 + k as i64) as i32;
        let e1 = (self.e1() as i64 + k as i64) as i32;
        let e2 = (self.e2() as i64 + k as i64) as i32;
        Self::new(e0, e1, e2)
    }

    /// The scalar `k` subtracted from every component.
    fn sub_scalar(&self, k: i32) -> (r: Self)
        requires
            fits(spec_sub_scalar(self.comps(), k as int)),
        ensures
            r.comps() == spec_sub_scalar(self.comps(), k as int),
    {
        let e0 = (self.e0() as i64 - k as i64) as i32;
        let e1 = (self.e1() as i64 - k as i64) as i32;
        let e2 = (self.e2() as i64 - k as i64) as i32;
        Self::new(e0, e1, e2)
    }

    /// Every component multiplied by the scalar `k`.
    fn scale(&self, k: i32) -> (r: Self)
        requires
            fits(spec_scale(self.comps(), k as int)),
        ensures
            r.comps() == spec_scale(self.comps(), k as int),
    {
        let (a0, a1, a2) = (self.e0(), self.e1(), self.e2());
        proof {
            lemma_i32_product(a0 as int, k as int);
            lemma_i32_product(a1 as int, k as int);
            lemma_i32_product(a2 as int, k as int);
        }
        let e0 = (a0 as i64 * k as i64) as i32;
        let e1 = (a1 as i64 * k as i64) as i32;
        let e2 = (a2 as i64 * k as i64) as i32;
        Self::new(e0, e1, e2)
    }

    /// In-place form of `add`.
    fn add_assign(&mut self, rhs: &Self)
        requires
            fits(spec_add(old(self).comps(), rhs.comps())),
        ensures
            final(self).comps() == spec_add(old(self).comps(), rhs.comps()),
    {
        *self = self.add(rhs);
    }

    /// In-place form of `sub`.
    fn sub_assign(&mut self, rhs: &Self)
        requires
            fits(spec_sub(old(self).comps(), rhs.comps())),
        ensures
            final(self).comps() == spec_sub(old(self).comps(), rhs.comps()),
    {
        *self = self.sub(rhs);
    }

    /// In-place form of `mul`.
    fn mul_assign(&mut self, rhs: &Self)
        requires
            fits(spec_mul(old(self).comps(), rhs.comps())),
        ensures
            final(self).comps() == spec_mul(old(self).comps(), rhs.comps()),
    {
        *self = self.mul(rhs);
    }

    /// In-place form of `add_scalar`.
    fn add_scalar_assign(&mut self, k: i32)
        requires
            fits(spec_add_scalar(old(self).comps(), k as int)),
        ensures
            final(self).comps() == spec_add_scalar(old(self).comps(), k as int),
    {
        *self = self.add_scalar(k);
    }

    /// In-place form of `sub_scalar`.
    fn sub_scalar_assign(&mut self, k: i32)
        requires
            fits(spec_sub_scalar(old(self).comps(), k as int)),
        ensures
            final(self).comps() == spec_sub_scalar(old(self).comps(), k as int),
    {
        *self = self.sub_scalar(k);
    }

    /// In-place form of `scale`.
    fn scale_assign(&mut self, k: i32)
        requires
            fits(spec_scale(old(self).comps(), k as int)),
        ensures
            final(self).comps() == spec_scale(old(self).comps(), k as int),
    {
        *self = self.scale(k);
    }
}

/// The product of two `i32` values fits in an `i64`.
pub proof fn lemma_i32_product(a: int, b: int)
    requires
        in_i32(a),
        in_i32(b),
    ensures
        i64::MIN <= a * b <= i64::MAX,
        -0x4000_0000_0000_0000 <= a * b <= 0x4000_0000_0000_0000,
{
    assert(-0x4000_0000_0000_0000 <= a * b <= 0x4000_0000_0000_0000) by (nonlinear_arith)
        requires
            in_i32(a),
            in_i32(b),
    ;
}

/// The dot product of a vector with itself is its squared length.
pub proof fn lemma_dot_self(v: Triple)
    ensures
        spec_dot(v, v) == spec_square_len(v),
{
}

/// The cross product is orthogonal to both of its operands.
pub proof fn lemma_cross_orthogonal(a: Triple, b: Triple)
    ensures
        spec_dot(spec_cross(a, b), a) == 0,
        spec_dot(spec_cross(a, b), b) == 0,
{
    let c = spec_cross(a, b);
    assert(spec_dot(c, a) == 0) by (nonlinear_arith)
        requires
            c == (a.1 * b.2 - a.2 * b.1, a.2 * b.0 - a.0 * b.2, a.0 * b.1 - a.1 * b.0),
    ;
    assert(spec_dot(c, b) == 0) by (nonlinear_arith)
        requires
            c == (a.1 * b.2 - a.2 * b.1, a.2 * b.0 - a.0 * b.2, a.0 * b.1 - a.1 * b.0),
    ;
}

/// The cross product is anti-commutative: swapping the operands negates the result.
pub proof fn lemma_cross_anticommutative(a: Triple, b: Triple)
    ensures
        spec_cross(a, b) == spec_neg(spec_cross(b, a)),
{
    assert(a.1 * b.2 == b.2 * a.1 && a.2 * b.1 == b.1 * a.2) by (nonlinear_arith);
    assert(a.0 * b.2 == b.2 * a.0 && a.2 * b.0 == b.0 * a.2) by (nonlinear_arith);
    assert(a.0 * b.1 == b.1 * a.0 && a.1 * b.0 == b.0 * a.1) by (nonlinear_arith);
}

/// A position or a direction in space.
#[derive(Debug, Clone, Copy, PartialEq, Eq, Structural)]
pub struct Point {
    pub x: i32,
    pub y: i32,
    pub z: i32,
}

impl Vec3 for Point {
    open spec fn comps(&self) -> Triple {
        (self.x as int, self.y as int, self.z as int)
    }

    fn e0(&self) -> (r: i32) {
        self.x
    }

    fn e1(&self) -> (r: i32) {
        self.y
    }

    fn e2(&self) -> (r: i32) {
        self.z
    }

    fn new(e0: i32, e1: i32, e2: i32) -> (r: Self) {
        Point { x: e0, y: e1, z: e2 }
    }
}

/// A red, green and blue intensity.
#[derive(Debug, Clone, Copy, PartialEq, Eq, Structural)]
pub struct Color {
    pub r: i32,
    pub g: i32,
    pub b: i32,
}

impl Vec3 for Color {
    open spec fn comps(&self) -> Triple {
        (self.r as int, self.g as int, self.b as int)
    }

    fn e0(&self) -> (r: i32) {
        self.r
    }

    fn e1(&self) -> (r: i32) {
        self.g
    }

    fn e2(&self) -> (r: i32) {
        self.b
    }

    fn new(e0: i32, e1: i32, e2: i32) -> (r: Self) {
        Color { r: e0, g: e1, b: e2 }
    }
}

/// Sum of the products of corresponding components.
pub fn dot<T: Vec3>(v1: &T, v2: &T) -> (r: i128)
    ensures
        r == spec_dot(v1.comps(), v2.comps()),
{
    let (a0, a1, a2) = (v1.e0() as i128, v1.e1() as i128, v1.e2() as i128);
    let (b0, b1, b2) = (v2.e0() as i128, v2.e1() as i128, v2.e2() as i128);
    proof {
        lemma_i32_product(a0 as int, b0 as int);
        lemma_i32_product(a1 as int, b1 as int);
        lemma_i32_product(a2 as int, b2 as int);
    }
    a0 * b0 + a1 * b1 + a2 * b2
}

/// Writes the cross product of `v1` and `v2` (see `spec_cross`) into `res`.
pub fn cross<T: Vec3>(v1: &T, v2: &T, res: &mut T)
    requires
        fits(spec_cross(v1.comps(), v2.comps())),
    ensures
        final(res).comps() == spec_cross(v1.comps(), v2.comps()),
{
    let (a0, a1, a2) = (v1.e0() as i64, v1.e1() as i64, v1.e2() as i64);
    let (b0, b1, b2) = (v2.e0() as i64, v2.e1() as i64, v2.e2() as i64);
    proof {
        lemma_i32_product(a1 as int, b2 as int);
        lemma_i32_product(a2 as int, b1 as int);
        lemma_i32_product(a0 as int, b2 as int);
        lemma_i32_product(a2 as int, b0 as int);
        lemma_i32_product(a0 as int, b1 as int);
        lemma_i32_product(a1 as int, b0 as int);
    }
    let e0 = a1 * b2 - a2 * b1;
    let e1 = a2 * b0 - a0 * b2;
    let e2 = a0 * b1 - a1 * b0;
    *res = T::new(e0 as i32, e1 as i32, e2 as i32);
}

} // verus!
