//! Indexed access to the list, and three ways of walking it.

pub mod list;
pub mod loops;
