//! Geometry of an isosceles triangle spinning about its axis of symmetry.
//!
//! All coordinates, lengths and trigonometric values are fixed-point
//! integers: the integer `ONE` (one million) stands for the real number 1.
//! An angle is carried as its scaled cosine/sine pair, so the whole model
//! is exact integer arithmetic and every operation's result is pinned down
//! by its contract.

pub mod fixed;
pub mod spin;
pub mod triangle;
pub mod vec3;
