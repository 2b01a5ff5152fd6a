//! Creatures that walk and turn at bounded rates on an unbounded plane, in fixed-point
//! arithmetic.

pub mod creature;
pub mod fixed;
pub mod heading;
pub mod simulation;
pub mod sine;
