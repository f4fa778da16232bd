//! Working with a fixed list of five integers, and two small computations.

pub mod codes;
pub mod exercises;
