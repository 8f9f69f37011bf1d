//! Geometry and state model for a modular-multiplication circle
//! visualization: `N` points sit evenly spaced on a circle, and point `i` is
//! joined by a chord to point `(i * multiplier) mod N`. A session controller
//! owns the shape state and recomputes the point, chord and outline-ring
//! vertex buffers after every interaction (zoom toward the cursor, pan,
//! rotation, resize); an unverified host hands the buffers to a renderer.
//!
//! All coordinates, radii and angles are 64-bit fixed-point integers in
//! millionths of a unit (see [`fixed::SCALE`]), so every computation in this
//! crate is exact integer arithmetic with a proved absence of overflow.

pub mod canvas;
pub mod fixed;
pub mod geometry;
pub mod shape;
pub mod trig;
