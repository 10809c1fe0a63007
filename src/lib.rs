//! The float-free core of a Monte Carlo ray tracer: open parameter intervals,
//! the choice between a sphere's two roots, closest-hit selection over a list
//! of primitives, and the bounce control of a traced light path.
//!
//! Parametric distances along a ray are carried as order-preserving `u32`
//! keys of their bit patterns (see [`distance`]): for distances `a < b`,
//! `key(a) < key(b)`.

pub mod camera;
pub mod distance;
pub mod hittable;
pub mod material;
pub mod path;
pub mod utils;
