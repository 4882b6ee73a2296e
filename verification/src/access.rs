//! Access to a value: a place on the word of a lock together with a guard of its cell.
//!
//! What makes a call on a lock is given the [`Turn`] for it here, which is good for one log of what is
//! done to the word, and for asking the cell once.

use crate::cell::held;
use crate::cell::may_hold;
use crate::cell::may_show;
use crate::cell::open_owned;
use crate::cell::settled;
use crate::cell::shown;
use crate::cell::steady;
use crate::cell::ValueCell;
use crate::locks::mwmr_spinlock::MwmrReadGuard;
use crate::locks::mwmr_spinlock::MwmrSpinLock;
use crate::locks::mwmr_spinlock::MwmrWriteGuard;
use crate::locks::swmr_spinlock::SecondWriter;
use crate::locks::swmr_spinlock::SwmrReadGuard;
use crate::locks::swmr_spinlock::SwmrSpinLock;
use crate::locks::swmr_spinlock::SwmrWriteGuard;
use crate::locks::turn::CellTurn;
use crate::locks::turn::claiming;
use crate::locks::turn::claiming_alone;
use crate::locks::turn::reading;
use crate::locks::turn::retrying_to_read;
use crate::locks::turn::trying_to_read;
use crate::locks::turn::trying_to_write;
use crate::locks::turn::trying_to_write_alone;
use crate::locks::turn::writing;
use crate::locks::turn::writing_alone;
use crate::locks::turn::Turn;
use crate::trace::came_in;
use crate::trace::came_in_at_last;
use crate::trace::found_busy;
use crate::trace::gave_up;
use crate::trace::got_in;
use crate::trace::got_in_alone;
use crate::trace::group_one_more;
use crate::trace::stage_of;
use crate::trace::stepped_back;
use crate::trace::took_free;
use crate::trace::took_free_alone;
use crate::trace::turned_away;
use crate::trace::turned_away_each_time;
use crate::trace::waited_in_vain;
use crate::trace::was_second;
use crate::trace::writer_tries;
use crate::trace::Op;
use crate::word::atomic::log::Log;
use crate::word::atomic::LockWord;
use crate::word::visit::ReaderSlot;
use crate::word::visit::Refusal;
use crate::word::visit::WriterSlot;
use crate::word::visit::ROUNDS;
use std::ops::Deref;
use std::sync::RwLockReadGuard;
use std::sync::RwLockWriteGuard;
use vstd::prelude::*;

verus! {

broadcast use group_one_more;

/// Shared access to a value.
#[verifier::reject_recursive_types(T)]
pub struct Shared<'a, T> {
    // The fields are dropped in this order: the value is let go before the word is.
    value: RwLockReadGuard<'a, T>,
    slot: ReaderSlot<'a>,
}

impl<'a, T> Shared<'a, T> {
    /// The guard shows one and the same value each time.
    #[verifier::type_invariant]
    closed spec fn one_value(&self) -> bool {
        steady(self.value)
    }

    /// The value that is shown.
    pub closed spec fn view(&self) -> T {
        shown(self.value)
    }

    /// What the reader has done to the word.
    pub closed spec fn log(&self) -> Seq<Op> {
        self.slot.log()
    }

    /// The word the reader has its place on.
    pub closed spec fn word(&self) -> LockWord {
        self.slot.word()
    }

    /// The guard that the cell handed out.
    pub closed spec fn given(&self) -> RwLockReadGuard<'a, T> {
        self.value
    }

    /// Shows the value.
    pub(crate) fn look(&self) -> (r: &T)
        ensures
            *r == self@,
    {
        proof {
            use_type_invariant(self);
        }
        let r = self.value.deref();
        assert(may_show(self.value, *r));
        r
    }
}

/// Exclusive access to a value.
#[verifier::reject_recursive_types(T)]
pub struct Exclusive<'a, T> {
    // The fields are dropped in this order: the value is let go before the word is freed.
    value: RwLockWriteGuard<'a, T>,
    slot: WriterSlot<'a>,
    given: Ghost<RwLockWriteGuard<'a, T>>,
}

impl<'a, T> Exclusive<'a, T> {
    /// The guard gives one and the same value each time.
    #[verifier::type_invariant]
    closed spec fn one_value(&self) -> bool {
        settled(self.value)
    }

    /// The value as it is now.
    pub closed spec fn view(&self) -> T {
        held(self.value)
    }

    /// What the writer has done to the word.
    pub closed spec fn log(&self) -> Seq<Op> {
        self.slot.log()
    }

    /// The word the writer has its place on.
    pub closed spec fn word(&self) -> LockWord {
        self.slot.word()
    }

    /// The guard that the cell handed out, as it was then.
    pub closed spec fn given(&self) -> RwLockWriteGuard<'a, T> {
        self.given@
    }

    /// Shows the value.
    pub(crate) fn look(&self) -> (r: &T)
        ensures
            *r == self@,
    {
        proof {
            use_type_invariant(self);
        }
        let r = self.value.deref();
        assert(may_hold(self.value, *r));
        r
    }

    /// Borrows the value mutably. What the reference is left at is the value from then on.
    pub(crate) fn open(&mut self) -> (r: &mut T)
        ensures
            *r == old(self)@,
            final(self)@ == *final(r),
            final(self).word() == old(self).word(),
            final(self).log() == old(self).log(),
            final(self).given() == old(self).given(),
        opens_invariants none
        no_unwind
    {
        proof {
            use_type_invariant(&*self);
        }
        open_owned(&mut self.value)
    }
}

/// A value, and the word that settles who may touch it.
#[verifier::reject_recursive_types(T)]
pub struct Core<T> {
    cell: ValueCell<T>,
    word: LockWord,
}

impl<T> Core<T> {
    /// The word.
    pub closed spec fn word(&self) -> LockWord {
        self.word
    }

    /// The cell.
    pub closed spec fn cell(&self) -> ValueCell<T> {
        self.cell
    }

    /// A reader that has its place on the word, and its guard from the cell.
    pub open spec fn showed<'a>(&self, access: Shared<'a, T>) -> bool {
        &&& access.word() == self.word()
        &&& self.cell().gave_shared_to(self.word(), access.log(), Some(access.given()))
        &&& access@ == shown(access.given())
        &&& self.cell().vouches_for(access@)
    }

    /// A writer that has its place on the word, and its guard from the cell.
    pub open spec fn handed<'a>(&self, access: Exclusive<'a, T>) -> bool {
        &&& access.word() == self.word()
        &&& self.cell().gave_exclusive_to(self.word(), access.log(), Some(access.given()))
        &&& access@ == held(access.given())
    }

    /// A free word, and a cell that holds `val`.
    pub(crate) fn new(val: T) -> (r: Core<T>)
        ensures
            r.word().made_with(0),
            r.cell().set_to(val),
    {
        Core { cell: ValueCell::new(val), word: LockWord::new() }
    }

    /// Borrows the value where nobody shares it.
    pub(crate) fn get_mut(&mut self) -> (r: &mut T)
        ensures
            old(self).cell().gave_open(r),
            old(self).cell().vouches_for(*r),
            final(self).cell().set_to(*final(r)),
            final(self).word() == old(self).word(),
        opens_invariants none
        no_unwind
    {
        self.cell.get_mut()
    }

    /// Takes the value out.
    pub(crate) fn take(self) -> (r: T)
        ensures
            self.cell().gave_out(r),
            self.cell().vouches_for(r),
        opens_invariants none
        no_unwind
    {
        self.cell.into_inner()
    }

    /// Loads the word once.
    ///
    /// Whoever has access through a lock has its place on the word of that lock, which is what is asked.
    /// The ways to get access are named here for one more reason: a function cannot call what speaks of
    /// it, so none of them asks, and what they do does not depend on how many are inside.
    pub(crate) fn ask(&self, turn: Turn) -> (bits: usize)
        ensures
            self.word().visited(seq![Op::Peek(bits)]),
            forall|lock: &MwmrSpinLock<T>, guard: MwmrReadGuard<'_, T>| #[trigger]
                call_ensures(MwmrSpinLock::<T>::read, (lock,), Some(guard)) ==> guard.word()
                    == lock.word(),
            forall|lock: &MwmrSpinLock<T>, guard: MwmrReadGuard<'_, T>| #[trigger]
                call_ensures(MwmrSpinLock::<T>::try_read, (lock,), Some(guard)) ==> guard.word()
                    == lock.word(),
            forall|lock: &MwmrSpinLock<T>, rounds: u64, guard: MwmrReadGuard<'_, T>| #[trigger]
                call_ensures(MwmrSpinLock::<T>::cas_read, (lock, rounds), Some(guard)) ==> guard.word()
                    == lock.word(),
            forall|lock: &MwmrSpinLock<T>, guard: MwmrWriteGuard<'_, T>| #[trigger]
                call_ensures(MwmrSpinLock::<T>::write, (lock,), Some(guard)) ==> guard.word()
                    == lock.word(),
            forall|lock: &MwmrSpinLock<T>, guard: MwmrWriteGuard<'_, T>| #[trigger]
                call_ensures(MwmrSpinLock::<T>::try_write, (lock,), Some(guard)) ==> guard.word()
                    == lock.word(),
            forall|lock: &MwmrSpinLock<T>, rounds: u64, slot: WriterSlot<'_>| #[trigger]
                call_ensures(MwmrSpinLock::<T>::lock_exclusive_slow, (lock, rounds), Some(slot))
                    ==> slot.word() == lock.word(),
            forall|lock: &SwmrSpinLock<T>, guard: SwmrReadGuard<'_, T>| #[trigger]
                call_ensures(SwmrSpinLock::<T>::read, (lock,), Some(guard)) ==> guard.word()
                    == lock.word(),
            forall|lock: &SwmrSpinLock<T>, guard: SwmrReadGuard<'_, T>| #[trigger]
                call_ensures(SwmrSpinLock::<T>::try_read, (lock,), Some(guard)) ==> guard.word()
                    == lock.word(),
            forall|lock: &SwmrSpinLock<T>, rounds: u64, guard: SwmrReadGuard<'_, T>| #[trigger]
                call_ensures(SwmrSpinLock::<T>::cas_read, (lock, rounds), Some(guard)) ==> guard.word()
                    == lock.word(),
            forall|lock: &SwmrSpinLock<T>, guard: SwmrWriteGuard<'_, T>| #[trigger]
                call_ensures(SwmrSpinLock::<T>::write, (lock,), Ok(Some(guard))) ==> guard.word()
                    == lock.word(),
            forall|lock: &SwmrSpinLock<T>, guard: SwmrWriteGuard<'_, T>| #[trigger]
                call_ensures(SwmrSpinLock::<T>::try_write, (lock,), Ok(Some(guard))) ==> guard.word()
                    == lock.word(),
            forall|lock: &SwmrSpinLock<T>, rounds: u64, slot: WriterSlot<'_>| #[trigger]
                call_ensures(SwmrSpinLock::<T>::lock_exclusive, (lock, rounds), Ok(Some(slot)))
                    ==> slot.word() == lock.word(),
        opens_invariants none
        no_unwind
    {
        let (word_turn, _cell_turn) = turn.split();
        let (bits, log) = self.word.ask(Log::start(Ghost(self.word), word_turn));
        self.word.depart(log);
        bits
    }

    /// Hands the cell's guard to a reader that has its place on the word.
    fn enter_shared<'a>(&'a self, slot: ReaderSlot<'a>, turn: CellTurn) -> (r: Option<Shared<'a, T>>)
        requires
            slot.word() == self.word(),
            stage_of(slot.log()) is Reading,
        ensures
            r matches Some(access) ==> self.showed(access) && access.log() == slot.log(),
            r is None ==> self.cell().gave_shared_to(self.word(), slot.log(), None)
                && self.word().reader_came_and_left(slot.log()),
        opens_invariants none
        no_unwind
    {
        match self.cell.share(&slot, turn) {
            Some(value) => Some(Shared { value, slot }),
            None => {
                self.word.turn_reader_out(slot);
                None
            },
        }
    }

    /// Hands the cell's guard to a writer that has its place on the word.
    fn enter_exclusive<'a>(&'a self, slot: WriterSlot<'a>, turn: CellTurn) -> (r: Option<Exclusive<'a, T>>)
        requires
            slot.word() == self.word(),
            stage_of(slot.log()) is Inside,
        ensures
            r matches Some(access) ==> self.handed(access) && access.log() == slot.log(),
            r is None ==> self.cell().gave_exclusive_to(self.word(), slot.log(), None)
                && self.word().writer_came_and_left(slot.log()),
        opens_invariants none
        no_unwind
    {
        match self.cell.own(&slot, turn) {
            Some(value) => {
                let ghost given = value;
                Some(Exclusive { value, slot, given: Ghost(given) })
            },
            None => {
                self.word.turn_writer_out(slot);
                None
            },
        }
    }

    /// Tries once for read access.
    pub(crate) fn try_read(&self, turn: Turn) -> (r: Option<Shared<'_, T>>)
        ensures
            r matches Some(access) ==> self.showed(access) && came_in(access.log()),
            r is None ==> self.word().visit_with(|ops: Seq<Op>| turned_away(ops))
                || self.cell().refused_reader(self.word(), |ops: Seq<Op>| came_in(ops)),
        opens_invariants [ trying_to_read() ]
        no_unwind
    {
        let (word_turn, cell_turn) = turn.split();
        match self.word.try_lock_shared(Log::start(Ghost(self.word), word_turn)) {
            Ok(slot) => self.enter_shared(slot, cell_turn),
            Err(log) => {
                self.word.depart(log);
                None
            },
        }
    }

    /// Tries for read access, over and over, and gives up after `rounds` tries that all failed.
    pub(crate) fn cas_read(&self, rounds: u64, turn: Turn) -> (r: Option<Shared<'_, T>>)
        ensures
            r matches Some(access) ==> self.showed(access) && came_in_at_last(access.log()),
            r is None ==> self.word().visit_with(
                |ops: Seq<Op>| turned_away_each_time(ops, rounds as nat),
            ) || self.cell().refused_reader(self.word(), |ops: Seq<Op>| came_in_at_last(ops)),
            rounds == 0 ==> r is None,
        opens_invariants [ retrying_to_read() ]
        no_unwind
    {
        let (word_turn, cell_turn) = turn.split();
        match self.word.cas_read(rounds, Log::start(Ghost(self.word), word_turn)) {
            Ok(slot) => self.enter_shared(slot, cell_turn),
            Err(log) => {
                self.word.depart(log);
                None
            },
        }
    }

    /// Tries once for read access, and then over and over.
    pub(crate) fn read(&self, turn: Turn) -> (r: Option<Shared<'_, T>>)
        ensures
            r matches Some(access) ==> self.showed(access) && came_in_at_last(access.log()),
            r is None ==> self.word().visit_with(
                |ops: Seq<Op>| turned_away_each_time(ops, ROUNDS as nat + 1),
            ) || self.cell().refused_reader(self.word(), |ops: Seq<Op>| came_in_at_last(ops)),
        opens_invariants [ reading() ]
        no_unwind
    {
        let (word_turn, cell_turn) = turn.split();
        match self.word.try_lock_shared_weak(Log::start(Ghost(self.word), word_turn)) {
            Ok(slot) => self.enter_shared(slot, cell_turn),
            Err(log) => match self.word.cas_read(ROUNDS, log) {
                Ok(slot) => self.enter_shared(slot, cell_turn),
                Err(log) => {
                    self.word.depart(log);
                    None
                },
            },
        }
    }

    /// Tries once for write access, among several writers.
    pub(crate) fn try_write(&self, turn: Turn) -> (r: Option<Exclusive<'_, T>>)
        ensures
            r matches Some(access) ==> self.handed(access) && took_free(access.log()),
            r is None ==> self.word().visit_with(|ops: Seq<Op>| found_busy(ops))
                || self.cell().refused_writer(self.word(), |ops: Seq<Op>| took_free(ops)),
        opens_invariants [ trying_to_write() ]
        no_unwind
    {
        let (word_turn, cell_turn) = turn.split();
        // Only accept a completely free lock. Claiming the flag and then finding readers still
        // inside would mean putting it back down, and in the meantime another writer was held up
        // for nothing, so better not to claim it at all.
        match self.word.claim_free(Log::start(Ghost(self.word), word_turn)) {
            Ok(slot) => self.enter_exclusive(slot, cell_turn),
            Err(log) => {
                self.word.depart(log);
                None
            },
        }
    }

    /// Waits for write access, among several writers.
    pub(crate) fn write(&self, turn: Turn) -> (r: Option<Exclusive<'_, T>>)
        ensures
            r matches Some(access) ==> self.handed(access) && got_in(access.log()) && writer_tries(
                access.log(),
            ),
            r is None ==> self.word().visit_with(|ops: Seq<Op>| gave_up(ops, ROUNDS as nat))
                || self.cell().refused_writer(self.word(), |ops: Seq<Op>| got_in(ops) && writer_tries(ops)),
        opens_invariants [ writing() ]
        no_unwind
    {
        let (word_turn, cell_turn) = turn.split();
        // Fast path: the lock is completely free, so a single exchange is all it takes.
        match self.word.claim_free_weak(Log::start(Ghost(self.word), word_turn)) {
            Ok(slot) => self.enter_exclusive(slot, cell_turn),
            Err(log) => match self.word.lock_exclusive_slow(ROUNDS, log) {
                Ok(slot) => self.enter_exclusive(slot, cell_turn),
                Err(log) => {
                    self.word.depart(log);
                    None
                },
            },
        }
    }

    /// Claims the writer flag, then waits for the readers to drain.
    pub(crate) fn lock_exclusive_slow(&self, rounds: u64, turn: Turn) -> (r: Option<WriterSlot<'_>>)
        ensures
            r matches Some(slot) ==> slot.word() == self.word() && got_in(slot.log()) && writer_tries(
                slot.log(),
            ),
            r is None ==> self.word().visit_with(|ops: Seq<Op>| gave_up(ops, rounds as nat)),
            rounds == 0 ==> r is None,
        opens_invariants [ claiming() ]
        no_unwind
    {
        let (word_turn, _cell_turn) = turn.split();
        match self.word.lock_exclusive_slow(rounds, Log::start(Ghost(self.word), word_turn)) {
            Ok(slot) => Some(slot),
            Err(log) => {
                self.word.depart(log);
                None
            },
        }
    }

    /// Tries once for write access, as the only writer.
    pub(crate) fn try_write_alone(&self, turn: Turn) -> (r: Result<
        Option<Exclusive<'_, T>>,
        SecondWriter,
    >)
        ensures
            match r {
                Ok(Some(access)) => self.handed(access) && took_free_alone(access.log()),
                Ok(None) => self.word().visit_with(|ops: Seq<Op>| stepped_back(ops))
                    || self.cell().refused_writer(self.word(), |ops: Seq<Op>| took_free_alone(ops)),
                Err(_) => self.word().visit_with(|ops: Seq<Op>| was_second(ops)),
            },
        opens_invariants [ trying_to_write_alone() ]
        no_unwind
    {
        let (word_turn, cell_turn) = turn.split();
        match self.word.try_lock_single(Log::start(Ghost(self.word), word_turn)) {
            Ok(slot) => Ok(self.enter_exclusive(slot, cell_turn)),
            Err(Refusal::ReadersInside(log)) => {
                self.word.depart(log);
                Ok(None)
            },
            Err(Refusal::SecondWriter(log)) => {
                self.word.depart(log);
                Err(SecondWriter)
            },
        }
    }

    /// Waits for write access, as the only writer.
    pub(crate) fn write_alone(&self, turn: Turn) -> (r: Result<
        Option<Exclusive<'_, T>>,
        SecondWriter,
    >)
        ensures
            match r {
                Ok(Some(access)) => self.handed(access) && got_in(access.log()) && got_in_alone(
                    access.log(),
                    ROUNDS as nat,
                ),
                Ok(None) => self.word().visit_with(
                    |ops: Seq<Op>| waited_in_vain(ops, ROUNDS as nat),
                ) || self.cell().refused_writer(
                    self.word(),
                    |ops: Seq<Op>| got_in(ops) && got_in_alone(ops, ROUNDS as nat),
                ),
                Err(_) => self.word().visit_with(|ops: Seq<Op>| was_second(ops)),
            },
        opens_invariants [ writing_alone() ]
        no_unwind
    {
        let (word_turn, cell_turn) = turn.split();
        match self.word.lock_single(ROUNDS, Log::start(Ghost(self.word), word_turn)) {
            Ok(slot) => Ok(self.enter_exclusive(slot, cell_turn)),
            Err(Refusal::ReadersInside(log)) => {
                self.word.depart(log);
                Ok(None)
            },
            Err(Refusal::SecondWriter(log)) => {
                self.word.depart(log);
                Err(SecondWriter)
            },
        }
    }

    /// Puts the flag up, then waits for the readers to drain, as the only writer.
    pub(crate) fn lock_exclusive(&self, rounds: u64, turn: Turn) -> (r: Result<
        Option<WriterSlot<'_>>,
        SecondWriter,
    >)
        ensures
            match r {
                Ok(Some(slot)) => slot.word() == self.word() && got_in(slot.log()) && got_in_alone(
                    slot.log(),
                    rounds as nat,
                ),
                Ok(None) => self.word().visit_with(
                    |ops: Seq<Op>| waited_in_vain(ops, rounds as nat),
                ),
                Err(_) => self.word().visit_with(|ops: Seq<Op>| was_second(ops)),
            },
        opens_invariants [ claiming_alone() ]
        no_unwind
    {
        let (word_turn, _cell_turn) = turn.split();
        match self.word.lock_single(rounds, Log::start(Ghost(self.word), word_turn)) {
            Ok(slot) => Ok(Some(slot)),
            Err(Refusal::ReadersInside(log)) => {
                self.word.depart(log);
                Ok(None)
            },
            Err(Refusal::SecondWriter(log)) => {
                self.word.depart(log);
                Err(SecondWriter)
            },
        }
    }
}

} // verus!
