//! The word of a lock, and what is done on it.

pub mod atomic;
pub mod visit;
