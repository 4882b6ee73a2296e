//! A spin lock for many writers and many readers.
//!
//! [`MwmrSpinLock`] is the sibling of [`SwmrSpinLock`](crate::swmr_spinlock::SwmrSpinLock) for when
//! more than one thread writes. Writers take turns with each other and also wait for the readers
//! already inside to leave. Readers never wait on each other, any number of them can be in at once,
//! and they only stop when a writer is holding the lock or waiting to get in.
//!
//! The only real difference from the single writer lock: claiming the writer flag has to go through
//! a compare exchange instead of one atomic or, because two writers can reach for it at the same
//! moment.

use crate::access::Core;
use crate::access::Exclusive;
use crate::access::Shared;
use crate::bits::count_readers;
use crate::bits::has_writer;
use crate::cell::held;
use crate::cell::shown;
use crate::cell::ValueCell;
use crate::locks::turn::claiming;
use crate::locks::turn::reading;
use crate::locks::turn::retrying_to_read;
use crate::locks::turn::trying_to_read;
use crate::locks::turn::trying_to_write;
use crate::locks::turn::writing;
use crate::locks::turn::Turn;
use crate::trace::came_in;
use crate::trace::came_in_at_last;
use crate::trace::found_busy;
use crate::trace::gave_up;
use crate::trace::got_in;
use crate::trace::took_free;
use crate::trace::turned_away;
use crate::trace::turned_away_each_time;
use crate::trace::writer_tries;
use crate::trace::Op;
use crate::word::atomic::LockWord;
use crate::word::visit::WriterSlot;
use crate::word::visit::ROUNDS;
use std::ops::Deref;
use std::ops::DerefMut;
use std::sync::RwLockReadGuard;
use std::sync::RwLockWriteGuard;
use vstd::prelude::*;

verus! {

/// A spin lock that lets many readers in at once, with writers taking turns.
///
/// One word packs both facts into a single number: bit 0 is the writer flag, everything above it
/// counts the readers currently holding. That way one atomic operation settles who may come in.
///
/// Taking the lock for writing happens in two steps: claim the flag so no new reader can get in,
/// then spin until the readers already inside have left. Claiming the flag is also where writers
/// shut each other out. Since the flag going up blocks new readers right away, a steady stream of
/// readers cannot starve a writer.
#[verifier::reject_recursive_types(T)]
pub struct MwmrSpinLock<T> {
    core: Core<T>,
}

impl<T> MwmrSpinLock<T> {
    /// The word of the lock.
    pub closed spec fn word(&self) -> LockWord {
        self.core.word()
    }

    /// The cell of the lock.
    pub closed spec fn cell(&self) -> ValueCell<T> {
        self.core.cell()
    }

    /// A free lock around `val`.
    pub fn new(val: T) -> (r: MwmrSpinLock<T>)
        ensures
            r.word().made_with(0),
            r.cell().set_to(val),
    {
        MwmrSpinLock { core: Core::new(val) }
    }

    /// Takes write access, waiting until no other writer holds the lock and every reader inside has
    /// left.
    ///
    /// `None` comes only when the wait went on for [`ROUNDS`] rounds, or when the cell refuses the
    /// writer that has got in, which it has no cause to.
    #[inline]
    pub fn write(&self) -> (r: Option<MwmrWriteGuard<'_, T>>)
        ensures
            r matches Some(guard) ==> guard.of(self) && got_in(guard.log()) && writer_tries(
                guard.log(),
            ),
            r matches Some(guard) ==> guard@ == held(guard.given()),
            r is None ==> self.word().visit_with(|ops: Seq<Op>| gave_up(ops, ROUNDS as nat))
                || self.cell().refused_writer(self.word(), |ops: Seq<Op>| got_in(ops) && writer_tries(ops)),
        opens_invariants [ writing() ]
        no_unwind
    {
        match self.core.write(Turn::begin()) {
            Some(access) => Some(MwmrWriteGuard { access }),
            None => None,
        }
    }

    /// Tries once for write access and gives up right away if the lock is busy.
    #[inline]
    pub fn try_write(&self) -> (r: Option<MwmrWriteGuard<'_, T>>)
        ensures
            r matches Some(guard) ==> guard.of(self) && took_free(guard.log()),
            r matches Some(guard) ==> guard@ == held(guard.given()),
            r is None ==> self.word().visit_with(|ops: Seq<Op>| found_busy(ops))
                || self.cell().refused_writer(self.word(), |ops: Seq<Op>| took_free(ops)),
        opens_invariants [ trying_to_write() ]
        no_unwind
    {
        match self.core.try_write(Turn::begin()) {
            Some(access) => Some(MwmrWriteGuard { access }),
            None => None,
        }
    }

    /// Takes read access, waiting until the writer is done.
    ///
    /// Several threads can hold read access at the same time. `None` comes only when the wait went
    /// on for [`ROUNDS`] rounds, or when the cell refuses because it has as many readers as it can
    /// count.
    #[inline]
    pub fn read(&self) -> (r: Option<MwmrReadGuard<'_, T>>)
        ensures
            r matches Some(guard) ==> guard.of(self) && came_in_at_last(guard.log()),
            r matches Some(guard) ==> self.cell().vouches_for(guard@),
            r is None ==> self.word().visit_with(
                |ops: Seq<Op>| turned_away_each_time(ops, ROUNDS as nat + 1),
            ) || self.cell().refused_reader(self.word(), |ops: Seq<Op>| came_in_at_last(ops)),
        opens_invariants [ reading() ]
        no_unwind
    {
        match self.core.read(Turn::begin()) {
            Some(access) => Some(MwmrReadGuard { access }),
            None => None,
        }
    }

    /// Tries once for read access and gives up right away instead of waiting.
    #[inline]
    pub fn try_read(&self) -> (r: Option<MwmrReadGuard<'_, T>>)
        ensures
            r matches Some(guard) ==> guard.of(self) && came_in(guard.log()),
            r matches Some(guard) ==> self.cell().vouches_for(guard@),
            r is None ==> self.word().visit_with(|ops: Seq<Op>| turned_away(ops))
                || self.cell().refused_reader(self.word(), |ops: Seq<Op>| came_in(ops)),
        opens_invariants [ trying_to_read() ]
        no_unwind
    {
        match self.core.try_read(Turn::begin()) {
            Some(access) => Some(MwmrReadGuard { access }),
            None => None,
        }
    }

    /// Tries for read access, over and over, and gives up after `rounds` tries that all failed.
    pub fn cas_read(&self, rounds: u64) -> (r: Option<MwmrReadGuard<'_, T>>)
        ensures
            r matches Some(guard) ==> guard.of(self) && came_in_at_last(guard.log()),
            r matches Some(guard) ==> self.cell().vouches_for(guard@),
            r is None ==> self.word().visit_with(
                |ops: Seq<Op>| turned_away_each_time(ops, rounds as nat),
            ) || self.cell().refused_reader(self.word(), |ops: Seq<Op>| came_in_at_last(ops)),
            rounds == 0 ==> r is None,
        opens_invariants [ retrying_to_read() ]
        no_unwind
    {
        match self.core.cas_read(rounds, Turn::begin()) {
            Some(access) => Some(MwmrReadGuard { access }),
            None => None,
        }
    }

    /// Borrows the value of a lock that nobody shares. The lock is then set to what the reference is
    /// left at.
    #[inline]
    pub fn get_mut(&mut self) -> (r: &mut T)
        ensures
            old(self).cell().gave_open(r),
            old(self).cell().vouches_for(*r),
            final(self).cell().set_to(*final(r)),
            final(self).word() == old(self).word(),
        opens_invariants none
        no_unwind
    {
        self.core.get_mut()
    }

    /// Takes the value out of the lock.
    #[inline]
    pub fn take(self) -> (r: T)
        ensures
            self.cell().gave_out(r),
            self.cell().vouches_for(r),
        opens_invariants none
        no_unwind
    {
        self.core.take()
    }

    /// Claims the writer flag, then waits for the readers to drain.
    ///
    /// It gives up after `rounds` tries for the flag. Where readers stay for `rounds` looks after it
    /// was won, the flag goes down again.
    pub fn lock_exclusive_slow(&self, rounds: u64) -> (r: Option<WriterSlot<'_>>)
        ensures
            r matches Some(slot) ==> slot.word() == self.word() && got_in(slot.log()) && writer_tries(
                slot.log(),
            ),
            r is None ==> self.word().visit_with(|ops: Seq<Op>| gave_up(ops, rounds as nat)),
            rounds == 0 ==> r is None,
        opens_invariants [ claiming() ]
        no_unwind
    {
        self.core.lock_exclusive_slow(rounds, Turn::begin())
    }

    /// Whether anyone is holding the lock, readers and writers alike.
    #[inline]
    pub fn is_locked(&self) -> (r: bool)
        ensures
            self.word().answered_locked(r),
            exists|bits: usize| #[trigger]
                self.word().visited(seq![Op::Peek(bits)]) && r == (bits != 0),
        opens_invariants none
        no_unwind
    {
        let bits: usize = self.core.ask(Turn::begin());
        bits != 0
    }

    /// Whether a writer is holding the lock.
    ///
    /// This turns true the moment a writer claims the flag, which is a little before it actually
    /// gets in, while it is still waiting for the readers to leave.
    #[inline]
    pub fn is_write_locked(&self) -> (r: bool)
        ensures
            self.word().answered_flagged(r),
            exists|bits: usize| #[trigger]
                self.word().visited(seq![Op::Peek(bits)]) && r == (bits % 2 == 1),
        opens_invariants none
        no_unwind
    {
        let bits: usize = self.core.ask(Turn::begin());
        has_writer(bits)
    }

    /// How many readers are holding the lock at the moment of the read. Handy for a peek, but it
    /// can change the instant you get it, so do not make decisions on it.
    #[inline]
    pub fn reader_count(&self) -> (r: usize)
        ensures
            self.word().answered_readers(r as nat),
            exists|bits: usize| #[trigger]
                self.word().visited(seq![Op::Peek(bits)]) && r == bits / 2,
        opens_invariants none
        no_unwind
    {
        let bits: usize = self.core.ask(Turn::begin());
        count_readers(bits)
    }
}

impl<T: Default> Default for MwmrSpinLock<T> {
    fn default() -> (r: MwmrSpinLock<T>)
        ensures
            r.word().made_with(0),
            exists|val: T|
                call_ensures(T::default, (), val) && #[trigger] r.cell().set_to(val),
    {
        MwmrSpinLock::new(T::default())
    }
}

impl<T> From<T> for MwmrSpinLock<T> {
    fn from(value: T) -> (r: MwmrSpinLock<T>)
        ensures
            r.word().made_with(0),
            r.cell().set_to(value),
    {
        MwmrSpinLock::new(value)
    }
}

// Two locks made from equal values are two locks, so what comes out is no function of the value; the
// contract of `from` says what is known of it.
impl<T> vstd::std_specs::convert::FromSpecImpl<T> for MwmrSpinLock<T> {
    open spec fn obeys_from_spec() -> bool {
        false
    }

    open spec fn from_spec(value: T) -> MwmrSpinLock<T> {
        arbitrary()
    }
}

/// Write access, held by one thread at a time. Dropping it frees the lock.
#[verifier::reject_recursive_types(T)]
pub struct MwmrWriteGuard<'a, T> {
    access: Exclusive<'a, T>,
}

impl<'a, T> MwmrWriteGuard<'a, T> {
    /// The value as the guard has it.
    pub closed spec fn view(&self) -> T {
        self.access@
    }

    /// What the writer has done to the word.
    pub closed spec fn log(&self) -> Seq<Op> {
        self.access.log()
    }

    /// The word the guard has its place on.
    pub closed spec fn word(&self) -> LockWord {
        self.access.word()
    }

    /// What the cell handed out when the guard was made.
    pub closed spec fn given(&self) -> RwLockWriteGuard<'a, T> {
        self.access.given()
    }

    /// The guard has its place on the word of `lock`, and its value from the cell of `lock`.
    pub open spec fn of(&self, lock: &MwmrSpinLock<T>) -> bool {
        &&& self.word() == lock.word()
        &&& lock.cell().gave_exclusive_to(lock.word(), self.log(), Some(self.given()))
    }
}

impl<'a, T> Deref for MwmrWriteGuard<'a, T> {
    type Target = T;

    fn deref(&self) -> (r: &T)
        ensures
            *r == self@,
    {
        self.access.look()
    }
}

impl<'a, T> DerefMut for MwmrWriteGuard<'a, T> {
    fn deref_mut(&mut self) -> (r: &mut T)
        ensures
            *r == old(self)@,
            final(self)@ == *final(r),
            final(self).word() == old(self).word(),
            final(self).log() == old(self).log(),
            final(self).given() == old(self).given(),
    {
        self.access.open()
    }
}

/// Shared read access. It only offers `Deref`, so there is no way to write through this guard.
/// Dropping it takes one reader off the lock.
#[verifier::reject_recursive_types(T)]
pub struct MwmrReadGuard<'a, T> {
    access: Shared<'a, T>,
}

impl<'a, T> MwmrReadGuard<'a, T> {
    /// The value as the guard shows it.
    pub closed spec fn view(&self) -> T {
        self.access@
    }

    /// What the reader has done to the word.
    pub closed spec fn log(&self) -> Seq<Op> {
        self.access.log()
    }

    /// The word the guard has its place on.
    pub closed spec fn word(&self) -> LockWord {
        self.access.word()
    }

    /// What the cell handed out when the guard was made.
    pub closed spec fn given(&self) -> RwLockReadGuard<'a, T> {
        self.access.given()
    }

    /// The guard has its place on the word of `lock`, and its value from the cell of `lock`.
    pub open spec fn of(&self, lock: &MwmrSpinLock<T>) -> bool {
        &&& self.word() == lock.word()
        &&& lock.cell().gave_shared_to(lock.word(), self.log(), Some(self.given()))
        &&& self@ == shown(self.given())
    }
}

impl<'a, T> Deref for MwmrReadGuard<'a, T> {
    type Target = T;

    fn deref(&self) -> (r: &T)
        ensures
            *r == self@,
    {
        self.access.look()
    }
}

} // verus!
