//! Exact integer geometry for a small ray caster: three-component vectors of
//! two distinct kinds (points and colors), rays, the ray-sphere quadratic and
//! the camera's pixel rays.

pub mod camera;
pub mod ray;
pub mod sphere;
pub mod vec3;

pub use camera::{pixel_at, Camera};
pub use ray::Ray;
pub use sphere::{hit_sphere, Root};
pub use vec3::{cross, dot, Color, Point, Vec3};
