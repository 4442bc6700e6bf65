use vstd::prelude::*;
use crate::vec3::{fits, spec_add, spec_scale, Point, Triple, Vec3};

verus! {

/// A half-line: every point `origin + t * direction`.
#[derive(Debug, Clone, Copy, PartialEq, Eq, Structural)]
pub struct Ray {
    pub origin: Point,
    pub direction: Point,
}

/// The point at parameter `t` along a ray given by its origin and direction.
pub open spec fn spec_point_at(origin: Triple, direction: Triple, t: int) -> Triple {
    spec_add(origin, spec_scale(direction, t))
}

impl Ray {
    pub fn new(origin: Point, direction: Point) -> (r: Self)
        ensures
            r.origin == origin,
            r.direction == direction,
    {
        Ray { origin: origin, direction: direction }
    }

    /// `origin + direction * time`.
    pub fn point_at_parameter(&self, time: i32) -> (r: Point)
        requires
            fits(spec_point_at(self.origin.comps(), self.direction.comps(), time as int)),
        ensures
            r.comps() == spec_point_at(self.origin.comps(), self.direction.comps(), time as int),
    {
        let o = self.origin;
        let d = self.direction;
        proof {
            crate::vec3::lemma_i32_product(d.x as int, time as int);
            crate::vec3::lemma_i32_product(d.y as int, time as int);
            crate::vec3::lemma_i32_product(d.z as int, time as int);
        }
        let x = o.x as i64 + d.x as i64 * time as i64;
        let y = o.y as i64 + d.y as i64 * time as i64;
        let z = o.z as i64 + d.z as i64 * time as i64;
        Point::new(x as i32, y as i32, z as i32)
    }
}

/// At parameter zero a ray is at its origin, and at parameter one it is at
/// its origin moved by its direction.
pub proof fn lemma_point_at_zero_and_one(origin: Triple, direction: Triple)
    ensures
        spec_point_at(origin, direction, 0) == origin,
        spec_point_at(origin, direction, 1) == spec_add(origin, direction),
{
}

} // verus!
