//! The locks, and the right to make a call on one.

pub mod mwmr_spinlock;
pub mod swmr_spinlock;
pub mod turn;
