//! Random two-dimensional shapes on a bounded canvas.
//!
//! A [`generator::ShapeGenerator`] holds, for each kind of shape, how many
//! to draw and how large they may be, and draws a fresh collection of
//! shapes on request. [`gen_util`] draws the scalars, points, rectangles,
//! polygons and colours that the shapes are made of.
//!
//! Every length and coordinate is a fixed-point number: an `i64` that counts
//! 1/65536ths of a canvas unit (see [`scalar::ONE`]). The library holds no
//! floating point, so that each bound in a contract holds exactly; sine and
//! cosine for the regular polygons come from [`trig`].

pub mod scalar;
pub mod trig;
pub mod geometry;
pub mod polygon;
pub mod color;
pub mod gen_util;
pub mod shape;
pub mod generator;
