use vstd::prelude::*;
use crate::ray::Ray;
use crate::vec3::{fits, lemma_i32_product, spec_add, spec_scale, Point, Triple, Vec3};

verus! {

/// A fixed camera: an eye point and the image plane, given by its
/// lower-left corner and its horizontal and vertical spans.
#[derive(Debug, Clone, Copy, PartialEq, Eq, Structural)]
pub struct Camera {
    pub lower_left: Point,
    pub horizontal: Point,
    pub vertical: Point,
    pub origin: Point,
}

/// `nx * ny * (lower_left + horizontal * (i / nx) + vertical * (j / ny))`:
/// the direction through pixel `(i, j)`, scaled by `nx * ny` so that it stays
/// integral. A positive scale changes neither where the ray goes nor its unit
/// direction.
pub open spec fn spec_pixel_direction(
    lower_left: Triple,
    horizontal: Triple,
    vertical: Triple,
    nx: int,
    ny: int,
    i: int,
    j: int,
) -> Triple {
    spec_add(
        spec_add(spec_scale(lower_left, nx * ny), spec_scale(horizontal, i * ny)),
        spec_scale(vertical, j * nx),
    )
}

impl Camera {
    pub fn new(lower_left: Point, horizontal: Point, vertical: Point, origin: Point) -> (r: Self)
        ensures
            r == (Camera { lower_left, horizontal, vertical, origin }),
    {
        Camera { lower_left, horizontal, vertical, origin }
    }

    pub open spec fn direction_for(&self, nx: int, ny: int, i: int, j: int) -> Triple {
        spec_pixel_direction(
            self.lower_left.comps(),
            self.horizontal.comps(),
            self.vertical.comps(),
            nx,
            ny,
            i,
            j,
        )
    }

    /// The ray from the camera's origin through pixel `(i, j)` of an image
    /// `nx` wide and `ny` high (see `spec_pixel_direction`).
    pub fn pixel_ray(&self, nx: i32, ny: i32, i: i32, j: i32) -> (r: Ray)
        requires
            fits(self.direction_for(nx as int, ny as int, i as int, j as int)),
        ensures
            r.origin == self.origin,
            r.direction.comps() == self.direction_for(nx as int, ny as int, i as int, j as int),
    {
        proof {
            lemma_i32_product(nx as int, ny as int);
            lemma_i32_product(i as int, ny as int);
            lemma_i32_product(j as int, nx as int);
        }
        let s = nx as i128 * ny as i128;
        let si = i as i128 * ny as i128;
        let sj = j as i128 * nx as i128;
        let x = scaled_sum(self.lower_left.x, self.horizontal.x, self.vertical.x, s, si, sj);
        let y = scaled_sum(self.lower_left.y, self.horizontal.y, self.vertical.y, s, si, sj);
        let z = scaled_sum(self.lower_left.z, self.horizontal.z, self.vertical.z, s, si, sj);
        Ray::new(self.origin, Point::new(x, y, z))
    }
}

/// `l * s + h * si + v * sj`, where it fits in an `i32`.
fn scaled_sum(l: i32, h: i32, v: i32, s: i128, si: i128, sj: i128) -> (r: i32)
    requires
        -0x4000_0000_0000_0000 <= s <= 0x4000_0000_0000_0000,
        -0x4000_0000_0000_0000 <= si <= 0x4000_0000_0000_0000,
        -0x4000_0000_0000_0000 <= sj <= 0x4000_0000_0000_0000,
        i32::MIN <= l * s + h * si + v * sj <= i32::MAX,
    ensures
        r == l * s + h * si + v * sj,
{
    proof {
        lemma_wide_product(l as int, s as int);
        lemma_wide_product(h as int, si as int);
        lemma_wide_product(v as int, sj as int);
    }
    (l as i128 * s + h as i128 * si + v as i128 * sj) as i32
}

proof fn lemma_wide_product(p: int, q: int)
    requires
        i32::MIN <= p <= i32::MAX,
        -0x4000_0000_0000_0000 <= q <= 0x4000_0000_0000_0000,
    ensures
        -0x1_0000_0000_0000_0000_0000_0000 <= p * q <= 0x1_0000_0000_0000_0000_0000_0000,
{
    assert(-0x1_0000_0000_0000_0000_0000_0000 <= p * q <= 0x1_0000_0000_0000_0000_0000_0000)
        by (nonlinear_arith)
        requires
            i32::MIN <= p <= i32::MAX,
            -0x4000_0000_0000_0000 <= q <= 0x4000_0000_0000_0000,
    ;
}

/// The pixel written `k`-th: rows from the top of the image down, each row
/// left to right. `j` counts rows from the bottom.
pub fn pixel_at(nx: i32, ny: i32, k: i64) -> (r: (i32, i32))
    requires
        nx > 0,
        ny > 0,
        0 <= k < nx * ny,
    ensures
        r.0 == (k as int) % (nx as int),
        r.1 == ny - 1 - (k as int) / (nx as int),
        0 <= r.0 < nx,
        0 <= r.1 < ny,
{
    let w = nx as i64;
    let row = k / w;
    proof {
        assert(row < ny) by (nonlinear_arith)
            requires
                row == k / w,
                0 <= k < w * ny,
                w > 0,
        ;
    }
    ((k % w) as i32, (ny as i64 - 1 - row) as i32)
}

} // verus!
