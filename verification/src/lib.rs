//! Two spin locks for values that are read far more often than they are written.
//!
//! - [`mwmr_spinlock::MwmrSpinLock`]: many writers that take turns, many readers.
//! - [`swmr_spinlock::SwmrSpinLock`]: one writer, many readers.
//!
//! Both pack their whole state into one atomic number. [`bits`] says what that number means and
//! holds the decisions taken on it. [`word`] holds the atomic operations, which are all noted in the
//! log of the call that makes them, and what readers and writers do with them. [`trace`] says what
//! such a log can hold. [`cell`] keeps the value, [`access`] makes the calls of the locks on word and
//! cell, and [`backoff`] is the wait between two looks at a busy lock.
//!
//! [`undisturbed`] says what a call comes to if nobody else touches the lock. [`protocol`] states
//! and proves what the locks promise over every interleaving, [`schedule`] that every interleaving
//! of calls is one of those, and [`progress`] that a writer which waits for readers gets in.

pub mod access;
pub mod backoff;
pub mod bits;
pub mod cell;
mod locks;
pub mod progress;
pub mod protocol;
pub mod schedule;
pub mod trace;
pub mod undisturbed;
pub mod word;

pub use crate::locks::mwmr_spinlock;
pub use crate::locks::swmr_spinlock;
