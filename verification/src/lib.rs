//! A small geometric-algebra and rasterization foundation for a software
//! renderer: fixed-length integer tuples with named-field views, homogeneous
//! points and vectors built on them, linear colors, a bounds-checked pixel
//! canvas, and a width-limited plain-text (PPM `P3`) image encoder with a
//! verified round trip through its own parser.

pub mod canvas;
pub mod colors;
pub mod linalg;

pub use canvas::Canvas;
pub use canvas::RawCanvas;
pub use canvas::ppm_canvas::PPMCanvas;
pub use linalg::point::Point;
pub use linalg::point::Point3;
pub use linalg::vector::Vector;
pub use linalg::vector::Vector3;
