//! Bézier curves and tensor-product patches of degree one to four, evaluated
//! through two arithmetic capabilities: a scalar Bernstein basis and a vector
//! linear combination.
pub mod affine;
pub mod basis;
pub mod curve;
pub mod laws;
pub mod surface;

pub use affine::{lerp, unlerp, Unlerp};
pub use basis::BezierT;
pub use basis::LinearCombination;
pub use basis::Bezier;
pub use curve::{Curve1, Curve2, Curve3, Curve4};
pub use surface::{Surface2, Surface3};
