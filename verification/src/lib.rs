//! Verified cores of a handful of small console exercises: indexed access to
//! a fixed list, three ways of walking it, a number-guessing game, and a line
//! collector that shows a callee appending through a mutable borrow.
//!
//! Every function here works on plain values. Reading the console and
//! printing are left to the program built around this library.

pub mod chapter_3;
pub mod guessing_game;
pub mod ownership;
pub mod scan;
pub mod text;
