//! A spin lock built for one writer and many readers.
//!
//! [`SwmrSpinLock`] is the right pick when exactly one thread ever writes, while any number of
//! threads read. Because the writer never has to race another writer, it can just put its flag up
//! with a single atomic or instead of looping on a compare exchange.
//!
//! The one thing you give up is the lock policing writers for you. Two writers at once would break
//! the assumption this type is built on, so the second one is told so with [`SecondWriter`]. See
//! [`SwmrSpinLock::write`].

use crate::access::Core;
use crate::access::Exclusive;
use crate::access::Shared;
use crate::bits::count_readers;
use crate::bits::has_writer;
use crate::cell::held;
use crate::cell::shown;
use crate::cell::ValueCell;
use crate::locks::turn::claiming_alone;
use crate::locks::turn::reading;
use crate::locks::turn::retrying_to_read;
use crate::locks::turn::trying_to_read;
use crate::locks::turn::trying_to_write_alone;
use crate::locks::turn::writing_alone;
use crate::locks::turn::Turn;
use crate::trace::came_in;
use crate::trace::came_in_at_last;
use crate::trace::got_in;
use crate::trace::got_in_alone;
use crate::trace::stepped_back;
use crate::trace::took_free_alone;
use crate::trace::turned_away;
use crate::trace::turned_away_each_time;
use crate::trace::waited_in_vain;
use crate::trace::was_second;
use crate::trace::Op;
use crate::word::atomic::LockWord;
use crate::word::visit::WriterSlot;
use crate::word::visit::ROUNDS;
use std::ops::Deref;
use std::ops::DerefMut;
use std::sync::RwLockReadGuard;
use std::sync::RwLockWriteGuard;
use vstd::prelude::*;

verus! {

/// A second writer tried to take a lock that allows a single one.
#[derive(Clone, Copy, Debug, PartialEq, Eq, Structural)]
pub struct SecondWriter;

impl SecondWriter {
    /// What went wrong, in words.
    pub fn message(&self) -> (r: &'static str)
        ensures
            r@ == "SwmrSpinLock allows a single writer, but a second one tried to take the lock"@,
        opens_invariants none
        no_unwind
    {
        "SwmrSpinLock allows a single writer, but a second one tried to take the lock"
    }
}

/// A spin lock that lets many readers in at once, with a single writer.
///
/// One word packs both facts into a single number: bit 0 is the writer flag, everything above it
/// counts the readers currently holding. That way one atomic operation settles who may come in.
///
/// Taking the lock for writing happens in two steps: put the flag up so no new reader can get in,
/// then spin until the readers already inside have left. Readers never wait on each other, only on
/// the writer.
#[verifier::reject_recursive_types(T)]
pub struct SwmrSpinLock<T> {
    core: Core<T>,
}

impl<T> SwmrSpinLock<T> {
    /// The word of the lock.
    pub closed spec fn word(&self) -> LockWord {
        self.core.word()
    }

    /// The cell of the lock.
    pub closed spec fn cell(&self) -> ValueCell<T> {
        self.core.cell()
    }

    /// A free lock around `val`.
    pub fn new(val: T) -> (r: SwmrSpinLock<T>)
        ensures
            r.word().made_with(0),
            r.cell().set_to(val),
    {
        SwmrSpinLock { core: Core::new(val) }
    }

    /// Takes write access, waiting until every reader currently inside has left.
    ///
    /// Only one thread is allowed to write, so [`SecondWriter`] means that the assumption this type
    /// is built on has been broken somewhere: the flag was up already, and it stays with the writer
    /// that put it up. `None` comes only when the wait went on for [`ROUNDS`] rounds, or when the
    /// cell refuses the writer that has got in, which it has no cause to.
    #[inline]
    pub fn write(&self) -> (r: Result<Option<SwmrWriteGuard<'_, T>>, SecondWriter>)
        ensures
            match r {
                Ok(Some(guard)) => guard.of(self) && got_in(guard.log()) && got_in_alone(
                    guard.log(),
                    ROUNDS as nat,
                ) && guard@ == held(guard.given()),
                Ok(None) => self.word().visit_with(
                    |ops: Seq<Op>| waited_in_vain(ops, ROUNDS as nat),
                ) || self.cell().refused_writer(
                    self.word(),
                    |ops: Seq<Op>| got_in(ops) && got_in_alone(ops, ROUNDS as nat),
                ),
                Err(_) => self.word().visit_with(|ops: Seq<Op>| was_second(ops)),
            },
        opens_invariants [ writing_alone() ]
        no_unwind
    {
        match self.core.write_alone(Turn::begin()) {
            Ok(Some(access)) => Ok(Some(SwmrWriteGuard { access })),
            Ok(None) => Ok(None),
            Err(second) => Err(second),
        }
    }

    /// Tries once for write access and gives up right away if a reader is still inside.
    ///
    /// [`SecondWriter`] comes as in [`SwmrSpinLock::write`].
    #[inline]
    pub fn try_write(&self) -> (r: Result<Option<SwmrWriteGuard<'_, T>>, SecondWriter>)
        ensures
            match r {
                Ok(Some(guard)) => guard.of(self) && took_free_alone(guard.log()) && guard@ == held(
                    guard.given(),
                ),
                Ok(None) => self.word().visit_with(|ops: Seq<Op>| stepped_back(ops))
                    || self.cell().refused_writer(self.word(), |ops: Seq<Op>| took_free_alone(ops)),
                Err(_) => self.word().visit_with(|ops: Seq<Op>| was_second(ops)),
            },
        opens_invariants [ trying_to_write_alone() ]
        no_unwind
    {
        match self.core.try_write_alone(Turn::begin()) {
            Ok(Some(access)) => Ok(Some(SwmrWriteGuard { access })),
            Ok(None) => Ok(None),
            Err(second) => Err(second),
        }
    }

    /// Takes read access, waiting until the writer is done.
    ///
    /// Several threads can hold read access at the same time. `None` comes only when the wait went
    /// on for [`ROUNDS`] rounds, or when the cell refuses because it has as many readers as it can
    /// count.
    #[inline]
    pub fn read(&self) -> (r: Option<SwmrReadGuard<'_, T>>)
        ensures
            r matches Some(guard) ==> guard.of(self) && came_in_at_last(guard.log()),
            r matches Some(guard) ==> self.cell().vouches_for(guard@),
            r is None ==> self.word().visit_with(
                |ops: Seq<Op>| turned_away_each_time(ops, ROUNDS as nat + 1),
            ) || self.cell().refused_reader(self.word(), |ops: Seq<Op>| came_in_at_last(ops)),
        opens_invariants [ reading() ]
        no_unwind
    {
        match self.core.read(Turn::begin()) {
            Some(access) => Some(SwmrReadGuard { access }),
            None => None,
        }
    }

    /// Tries once for read access and gives up right away instead of waiting.
    #[inline]
    pub fn try_read(&self) -> (r: Option<SwmrReadGuard<'_, T>>)
        ensures
            r matches Some(guard) ==> guard.of(self) && came_in(guard.log()),
            r matches Some(guard) ==> self.cell().vouches_for(guard@),
            r is None ==> self.word().visit_with(|ops: Seq<Op>| turned_away(ops))
                || self.cell().refused_reader(self.word(), |ops: Seq<Op>| came_in(ops)),
        opens_invariants [ trying_to_read() ]
        no_unwind
    {
        match self.core.try_read(Turn::begin()) {
            Some(access) => Some(SwmrReadGuard { access }),
            None => None,
        }
    }

    /// Tries for read access, over and over, and gives up after `rounds` tries that all failed.
    pub fn cas_read(&self, rounds: u64) -> (r: Option<SwmrReadGuard<'_, T>>)
        ensures
            r matches Some(guard) ==> guard.of(self) && came_in_at_last(guard.log()),
            r matches Some(guard) ==> self.cell().vouches_for(guard@),
            r is None ==> self.word().visit_with(
                |ops: Seq<Op>| turned_away_each_time(ops, rounds as nat),
            ) || self.cell().refused_reader(self.word(), |ops: Seq<Op>| came_in_at_last(ops)),
            rounds == 0 ==> r is None,
        opens_invariants [ retrying_to_read() ]
        no_unwind
    {
        match self.core.cas_read(rounds, Turn::begin()) {
            Some(access) => Some(SwmrReadGuard { access }),
            None => None,
        }
    }

    /// Borrows the value of a lock that nobody shares. The lock is then set to what the reference is
    /// left at.
    #[inline]
    pub fn get_mut(&mut self) -> (r: &mut T)
        ensures
            old(self).cell().gave_open(r),
            old(self).cell().vouches_for(*r),
            final(self).cell().set_to(*final(r)),
            final(self).word() == old(self).word(),
        opens_invariants none
        no_unwind
    {
        self.core.get_mut()
    }

    /// Takes the value out of the lock.
    #[inline]
    pub fn take(self) -> (r: T)
        ensures
            self.cell().gave_out(r),
            self.cell().vouches_for(r),
        opens_invariants none
        no_unwind
    {
        self.core.take()
    }

    /// Puts the flag up, then waits for the readers to drain. Where they stay for `rounds` looks,
    /// the flag goes down again.
    pub fn lock_exclusive(&self, rounds: u64) -> (r: Result<Option<WriterSlot<'_>>, SecondWriter>)
        ensures
            match r {
                Ok(Some(slot)) => slot.word() == self.word() && got_in(slot.log()) && got_in_alone(
                    slot.log(),
                    rounds as nat,
                ),
                Ok(None) => self.word().visit_with(
                    |ops: Seq<Op>| waited_in_vain(ops, rounds as nat),
                ),
                Err(_) => self.word().visit_with(|ops: Seq<Op>| was_second(ops)),
            },
        opens_invariants [ claiming_alone() ]
        no_unwind
    {
        self.core.lock_exclusive(rounds, Turn::begin())
    }

    /// Whether anyone is holding the lock, readers and the writer alike.
    #[inline]
    pub fn is_locked(&self) -> (r: bool)
        ensures
            self.word().answered_locked(r),
            exists|bits: usize| #[trigger]
                self.word().visited(seq![Op::Peek(bits)]) && r == (bits != 0),
        opens_invariants none
        no_unwind
    {
        let bits: usize = self.core.ask(Turn::begin());
        bits != 0
    }

    /// Whether the writer is holding the lock.
    ///
    /// This turns true the moment the writer puts its flag up, which is a little before it actually
    /// gets in, while it is still waiting for the readers to leave.
    #[inline]
    pub fn is_write_locked(&self) -> (r: bool)
        ensures
            self.word().answered_flagged(r),
            exists|bits: usize| #[trigger]
                self.word().visited(seq![Op::Peek(bits)]) && r == (bits % 2 == 1),
        opens_invariants none
        no_unwind
    {
        let bits: usize = self.core.ask(Turn::begin());
        has_writer(bits)
    }

    /// How many readers are holding the lock at the moment of the read. Handy for a peek, but it
    /// can change the instant you get it, so do not make decisions on it.
    #[inline]
    pub fn reader_count(&self) -> (r: usize)
        ensures
            self.word().answered_readers(r as nat),
            exists|bits: usize| #[trigger]
                self.word().visited(seq![Op::Peek(bits)]) && r == bits / 2,
        opens_invariants none
        no_unwind
    {
        let bits: usize = self.core.ask(Turn::begin());
        count_readers(bits)
    }
}

impl<T: Default> Default for SwmrSpinLock<T> {
    fn default() -> (r: SwmrSpinLock<T>)
        ensures
            r.word().made_with(0),
            exists|val: T|
                call_ensures(T::default, (), val) && #[trigger] r.cell().set_to(val),
    {
        SwmrSpinLock::new(T::default())
    }
}

impl<T> From<T> for SwmrSpinLock<T> {
    fn from(value: T) -> (r: SwmrSpinLock<T>)
        ensures
            r.word().made_with(0),
            r.cell().set_to(value),
    {
        SwmrSpinLock::new(value)
    }
}

// Two locks made from equal values are two locks, so what comes out is no function of the value; the
// contract of `from` says what is known of it.
impl<T> vstd::std_specs::convert::FromSpecImpl<T> for SwmrSpinLock<T> {
    open spec fn obeys_from_spec() -> bool {
        false
    }

    open spec fn from_spec(value: T) -> SwmrSpinLock<T> {
        arbitrary()
    }
}

/// Write access, held by the one thread allowed to write. Dropping it frees the lock.
#[verifier::reject_recursive_types(T)]
pub struct SwmrWriteGuard<'a, T> {
    access: Exclusive<'a, T>,
}

impl<'a, T> SwmrWriteGuard<'a, T> {
    /// The value as the guard has it.
    pub closed spec fn view(&self) -> T {
        self.access@
    }

    /// What the writer has done to the word.
    pub closed spec fn log(&self) -> Seq<Op> {
        self.access.log()
    }

    /// The word the guard has its place on.
    pub closed spec fn word(&self) -> LockWord {
        self.access.word()
    }

    /// What the cell handed out when the guard was made.
    pub closed spec fn given(&self) -> RwLockWriteGuard<'a, T> {
        self.access.given()
    }

    /// The guard has its place on the word of `lock`, and its value from the cell of `lock`.
    pub open spec fn of(&self, lock: &SwmrSpinLock<T>) -> bool {
        &&& self.word() == lock.word()
        &&& lock.cell().gave_exclusive_to(lock.word(), self.log(), Some(self.given()))
    }
}

impl<'a, T> Deref for SwmrWriteGuard<'a, T> {
    type Target = T;

    fn deref(&self) -> (r: &T)
        ensures
            *r == self@,
    {
        self.access.look()
    }
}

impl<'a, T> DerefMut for SwmrWriteGuard<'a, T> {
    fn deref_mut(&mut self) -> (r: &mut T)
        ensures
            *r == old(self)@,
            final(self)@ == *final(r),
            final(self).word() == old(self).word(),
            final(self).log() == old(self).log(),
            final(self).given() == old(self).given(),
    {
        self.access.open()
    }
}

/// Shared read access. It only offers `Deref`, so there is no way to write through this guard.
/// Dropping it takes one reader off the lock.
#[verifier::reject_recursive_types(T)]
pub struct SwmrReadGuard<'a, T> {
    access: Shared<'a, T>,
}

impl<'a, T> SwmrReadGuard<'a, T> {
    /// The value as the guard shows it.
    pub closed spec fn view(&self) -> T {
        self.access@
    }

    /// What the reader has done to the word.
    pub closed spec fn log(&self) -> Seq<Op> {
        self.access.log()
    }

    /// The word the guard has its place on.
    pub closed spec fn word(&self) -> LockWord {
        self.access.word()
    }

    /// What the cell handed out when the guard was made.
    pub closed spec fn given(&self) -> RwLockReadGuard<'a, T> {
        self.access.given()
    }

    /// The guard has its place on the word of `lock`, and its value from the cell of `lock`.
    pub open spec fn of(&self, lock: &SwmrSpinLock<T>) -> bool {
        &&& self.word() == lock.word()
        &&& lock.cell().gave_shared_to(lock.word(), self.log(), Some(self.given()))
        &&& self@ == shown(self.given())
    }
}

impl<'a, T> Deref for SwmrReadGuard<'a, T> {
    type Target = T;

    fn deref(&self) -> (r: &T)
        ensures
            *r == self@,
    {
        self.access.look()
    }
}

} // verus!
