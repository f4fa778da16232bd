//! Two small computations on integers.

pub mod fah_to_cel;
pub mod fibonnaci;
