//! A terminal ray marcher: renders a scene of spheres into a grid of
//! glyphs, one per pixel, using signed-distance sphere tracing.
//!
//! All geometry is carried in fixed-point arithmetic: a world unit is
//! `fx::SCALE` sub-units, and every coordinate, radius, color channel and
//! brightness is an `i64` count of sub-units.  Every executable function
//! is specified against an exact mathematical mirror of its arithmetic.

pub mod camera;
pub mod color;
pub mod fx;
pub mod pixel;
pub mod scene;
pub mod vec3;
