//! The procedures that the interpreter provides.
pub mod graphic;
pub mod math;
pub mod pair;
pub mod sequence;
