//! A verified geometry kernel for polygons in the plane, and the rolling of
//! one polygon around another that is built on it.
//!
//! The kernel computes with any number type that offers the operations of
//! [`scalar::Scalar`]. It never looks into a number: every contract says
//! which operations, on which operands, produced a result. The contact
//! bookkeeping of the rolling, in [`contacts`], does not even ask for
//! numbers and works with any kind of point.
//!
//! Beside the kernel stand the rules of a few small sketches: a game of
//! life, the turning of the tiles of an image, and others.

pub mod ring;
pub mod scalar;
pub mod angle;
pub mod line;
pub mod polygon;
pub mod contacts;
pub mod rolling;
pub mod settings;
pub mod point_u32;
pub mod digits;
pub mod game_of_life;
pub mod recursive_rotation;
pub mod four_tempers;
pub mod three_points;
pub mod contour_lines;
