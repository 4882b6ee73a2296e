//! The right to one call on a lock.

use crate::locks::mwmr_spinlock::MwmrSpinLock;
use crate::locks::swmr_spinlock::SwmrSpinLock;
use vstd::prelude::*;

verus! {

// What kind of call a function makes. A function names its kind where others name the invariants they may
// open, so one that makes calls of one kind, or none, cannot make a call of another.

/// One try for read access.
pub open spec fn trying_to_read() -> int {
    1
}

/// A wait for read access.
pub open spec fn reading() -> int {
    2
}

/// A bounded number of tries for read access.
pub open spec fn retrying_to_read() -> int {
    3
}

/// One try for write access among several writers.
pub open spec fn trying_to_write() -> int {
    4
}

/// A wait for write access among several writers.
pub open spec fn writing() -> int {
    5
}

/// A wait for a writer's place among several writers.
pub open spec fn claiming() -> int {
    6
}

/// One try for write access by the only writer.
pub open spec fn trying_to_write_alone() -> int {
    7
}

/// A wait for write access by the only writer.
pub open spec fn writing_alone() -> int {
    8
}

/// A wait for a writer's place by the only writer.
pub open spec fn claiming_alone() -> int {
    9
}

/// One call on a lock. Only the locks begin one; what works on the word and on the cell can only take
/// one. It cannot be copied.
pub struct Turn {
    token: (),
}

/// The part of a [`Turn`] that is good for one log of what is done to the word.
pub struct WordTurn {
    token: (),
}

/// The part of a [`Turn`] that is good for asking the cell once.
pub struct CellTurn {
    token: (),
}

impl Turn {
    /// Begins a call.
    ///
    /// The locks come out of their constructors with a free word. That is said here as well because a
    /// function cannot call what speaks of it: so no constructor begins a call on the lock it makes, by
    /// itself or through a method of the lock, and a new lock is untouched.
    pub(in crate::locks) fn begin() -> (r: Turn)
        ensures
            forall|lock: MwmrSpinLock<()>, val: ()| #[trigger]
                call_ensures(MwmrSpinLock::new, (val,), lock) ==> lock.word().made_with(0),
            forall|lock: MwmrSpinLock<()>, val: ()| #[trigger]
                call_ensures(<MwmrSpinLock<()> as From<()>>::from, (val,), lock)
                    ==> lock.word().made_with(0),
            forall|lock: MwmrSpinLock<()>| #[trigger]
                call_ensures(<MwmrSpinLock<()> as Default>::default, (), lock)
                    ==> lock.word().made_with(0),
            forall|lock: SwmrSpinLock<()>, val: ()| #[trigger]
                call_ensures(SwmrSpinLock::new, (val,), lock) ==> lock.word().made_with(0),
            forall|lock: SwmrSpinLock<()>, val: ()| #[trigger]
                call_ensures(<SwmrSpinLock<()> as From<()>>::from, (val,), lock)
                    ==> lock.word().made_with(0),
            forall|lock: SwmrSpinLock<()>| #[trigger]
                call_ensures(<SwmrSpinLock<()> as Default>::default, (), lock)
                    ==> lock.word().made_with(0),
        opens_invariants none
        no_unwind
    {
        Turn { token: () }
    }

    /// Uses up the turn for its two parts.
    pub(crate) fn split(self) -> (WordTurn, CellTurn)
        opens_invariants none
        no_unwind
    {
        (WordTurn { token: () }, CellTurn { token: () })
    }
}

} // verus!
