//! Linear algebra on fixed-length integer tuples: the raw [`tuple::Tuple`]
//! storage, displacement [`vector::Vector`]s and position [`point::Point`]s
//! in homogeneous coordinates.

pub mod point;
pub mod tuple;
pub mod vector;
