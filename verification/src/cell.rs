//! The place where a lock keeps its value.
//!
//! The word of a lock settles who may touch the value. The value itself sits in a
//! `std::sync::RwLock`, which is only ever asked without waiting and by somebody who has a place on a
//! word: asking takes the slot, so it cannot come before the word has given way. Then nobody is in the
//! way, as [`schedule`](crate::schedule) shows. The `RwLock` is there because safe Rust has no other
//! cell that can be shared between threads and borrowed from.

use crate::locks::turn::CellTurn;
use crate::trace::Op;
use crate::word::atomic::LockWord;
use crate::word::visit::ReaderSlot;
use crate::word::visit::WriterSlot;
use std::ops::Deref;
use std::ops::DerefMut;
use std::sync::RwLock;
use std::sync::RwLockReadGuard;
use std::sync::RwLockWriteGuard;
use std::sync::TryLockError;
use vstd::prelude::*;

verus! {

/// `std::sync::RwLock`. Nothing inside it is visible to a proof.
#[verifier::external_type_specification]
#[verifier::external_body]
#[verifier::reject_recursive_types(T)]
pub struct ExRwLock<T: ?Sized>(RwLock<T>);

/// `std::sync::RwLockReadGuard`. Nothing inside it is visible to a proof.
#[verifier::external_type_specification]
#[verifier::external_body]
#[verifier::reject_recursive_types(T)]
pub struct ExRwLockReadGuard<'a, T: ?Sized>(RwLockReadGuard<'a, T>);

/// `std::sync::RwLockWriteGuard`. Nothing inside it is visible to a proof.
#[verifier::external_type_specification]
#[verifier::external_body]
#[verifier::reject_recursive_types(T)]
pub struct ExRwLockWriteGuard<'a, T: ?Sized + 'a>(RwLockWriteGuard<'a, T>);

/// `RwLockReadGuard::deref`. What it gives is claimed where the guard is handed out, in
/// [`ask_shared`].
pub assume_specification<'a, 'b, T: ?Sized>[ <RwLockReadGuard<'a, T> as Deref>::deref ](
    guard: &'b RwLockReadGuard<'a, T>,
) -> &'b T;

/// `RwLockWriteGuard::deref`. What it gives is claimed where the guard is handed out, in
/// [`ask_exclusive`], and where the value is changed, in [`open_owned`].
pub assume_specification<'a, 'b, T: ?Sized>[ <RwLockWriteGuard<'a, T> as Deref>::deref ](
    guard: &'b RwLockWriteGuard<'a, T>,
) -> &'b T;

/// Whether dereferencing a shared guard may give `t`.
pub open spec fn may_show<'a, T>(guard: RwLockReadGuard<'a, T>, t: T) -> bool {
    call_ensures(<RwLockReadGuard<'a, T> as Deref>::deref, (&guard,), &t)
}

/// Whether a shared guard shows one and the same value each time.
pub open spec fn steady<'a, T>(guard: RwLockReadGuard<'a, T>) -> bool {
    forall|x: T, y: T| #[trigger] may_show(guard, x) && #[trigger] may_show(guard, y) ==> x == y
}

/// The value that a shared guard shows.
pub open spec fn shown<'a, T>(guard: RwLockReadGuard<'a, T>) -> T {
    choose|t: T| may_show(guard, t)
}

/// Whether dereferencing an exclusive guard may give `t`.
pub open spec fn may_hold<'a, T>(guard: RwLockWriteGuard<'a, T>, t: T) -> bool {
    call_ensures(<RwLockWriteGuard<'a, T> as Deref>::deref, (&guard,), &t)
}

/// Whether an exclusive guard gives one and the same value each time.
pub open spec fn settled<'a, T>(guard: RwLockWriteGuard<'a, T>) -> bool {
    forall|x: T, y: T| #[trigger] may_hold(guard, x) && #[trigger] may_hold(guard, y) ==> x == y
}

/// The value that an exclusive guard holds.
pub open spec fn held<'a, T>(guard: RwLockWriteGuard<'a, T>) -> T {
    choose|t: T| may_hold(guard, t)
}

/// A cell for one value that threads can share.
#[verifier::reject_recursive_types(T)]
pub struct ValueCell<T> {
    lock: RwLock<T>,
}

/// Makes a cell around a new lock, through `RwLock::new`. What it then holds is claimed where it is
/// asked for, in [`ask_shared`], [`unwrap`] and [`open_unshared`].
#[verifier::external_body]
fn make<T>(value: T) -> (r: ValueCell<T>)
    opens_invariants none
    no_unwind
{
    ValueCell { lock: RwLock::new(value) }
}

/// Asks for shared access, for a reader that has its place, through `RwLock::try_read`, which neither
/// waits nor unwinds. It uses up the right to ask. Poisoning is ignored.
///
/// The claim is that a guard that is handed out shows one and the same value each time, since nobody
/// can write while it lives, and that this is the value the cell was set to, unless exclusive access
/// was given out. Whether a guard is handed out depends on what other threads hold at that moment.
#[verifier::external_body]
fn ask_shared<'a, 'b, T>(
    cell: &'a ValueCell<T>,
    slot: &'b ReaderSlot<'b>,
    turn: CellTurn,
) -> (r: Option<RwLockReadGuard<'a, T>>)
    ensures
        r matches Some(guard) ==> steady(guard),
        r matches Some(guard) ==> cell.vouches_for(shown(guard)),
    opens_invariants none
    no_unwind
{
    match cell.lock.try_read() {
        Ok(guard) => Some(guard),
        Err(TryLockError::Poisoned(poisoned)) => Some(poisoned.into_inner()),
        Err(TryLockError::WouldBlock) => None,
    }
}

/// Asks for exclusive access, for a writer that has its place, through `RwLock::try_write`, which
/// neither waits nor unwinds. It uses up the right to ask. Poisoning is ignored.
///
/// The claim is that a guard that is handed out gives one and the same value each time, until it is
/// borrowed mutably: it is the only way to the value. Whether one is handed out depends on what
/// other threads hold at that moment.
#[verifier::external_body]
fn ask_exclusive<'a, 'b, T>(
    cell: &'a ValueCell<T>,
    slot: &'b WriterSlot<'b>,
    turn: CellTurn,
) -> (r: Option<RwLockWriteGuard<'a, T>>)
    ensures
        r matches Some(guard) ==> settled(guard),
    opens_invariants none
    no_unwind
{
    match cell.lock.try_write() {
        Ok(guard) => Some(guard),
        Err(TryLockError::Poisoned(poisoned)) => Some(poisoned.into_inner()),
        Err(TryLockError::WouldBlock) => None,
    }
}

/// Borrows the value mutably through `RwLockWriteGuard::deref_mut`, which does not unwind.
///
/// The claim is that the reference starts at the value the guard holds, and that what it is left at
/// is what the guard holds from then on.
#[verifier::external_body]
pub(crate) fn open_owned<'a, 'b, T>(guard: &'b mut RwLockWriteGuard<'a, T>) -> (r: &'b mut T)
    ensures
        may_hold(*old(guard), *r),
        may_hold(*final(guard), *final(r)),
        settled(*final(guard)),
    opens_invariants none
    no_unwind
{
    guard.deref_mut()
}

/// Unwraps the value through `RwLock::into_inner`. Poisoning is ignored.
///
/// The claim is that the result is the value the cell was set to, unless exclusive access was given
/// out. Otherwise it is what was last written, perhaps by another thread, and nothing is claimed.
#[verifier::external_body]
fn unwrap<T>(cell: ValueCell<T>) -> (r: T)
    ensures
        cell.vouches_for(r),
    opens_invariants none
    no_unwind
{
    match cell.lock.into_inner() {
        Ok(value) => value,
        Err(poisoned) => poisoned.into_inner(),
    }
}

/// Borrows the value of a cell that is not shared through `RwLock::get_mut`. Poisoning is ignored.
///
/// The claim is that the reference starts at the value the cell was set to, unless exclusive access
/// was given out, and that the cell is then as one made with the value that the reference is left
/// at.
#[verifier::external_body]
fn open_unshared<'b, T>(cell: &'b mut ValueCell<T>) -> (r: &'b mut T)
    ensures
        old(cell).vouches_for(*r),
        final(cell).set_to(*final(r)),
    opens_invariants none
    no_unwind
{
    match cell.lock.get_mut() {
        Ok(value) => value,
        Err(poisoned) => poisoned.into_inner(),
    }
}

impl<T> ValueCell<T> {
    /// The cell was set to `value` while nobody else could reach it: it was made with that value, or
    /// opened and left at it. Only making it and opening it establish this.
    pub closed spec fn set_to(&self, value: T) -> bool {
        call_ensures(make::<T>, (value,), *self)
    }

    /// A reader that has its place on `word`, and had then made these operations on it, asked the cell
    /// for shared access and was given `answer`. Only asking establishes this.
    pub closed spec fn gave_shared_to<'a>(
        &self,
        word: LockWord,
        ops: Seq<Op>,
        answer: Option<RwLockReadGuard<'a, T>>,
    ) -> bool {
        exists|slot: ReaderSlot<'_>, turn: CellTurn|
            slot.word() == word && slot.log() == ops && #[trigger] call_ensures(
                ask_shared::<T>,
                (self, &slot, turn),
                answer,
            )
    }

    /// A writer that has its place on `word`, and had then made these operations on it, asked the cell
    /// for exclusive access and was given `answer`. Only asking establishes this.
    pub closed spec fn gave_exclusive_to<'a>(
        &self,
        word: LockWord,
        ops: Seq<Op>,
        answer: Option<RwLockWriteGuard<'a, T>>,
    ) -> bool {
        exists|slot: WriterSlot<'_>, turn: CellTurn|
            slot.word() == word && slot.log() == ops && #[trigger] call_ensures(
                ask_exclusive::<T>,
                (self, &slot, turn),
                answer,
            )
    }

    /// A reader with such operations was let in by `word`, asked the cell after that, was refused, and
    /// has left again.
    pub open spec fn refused_reader(&self, word: LockWord, such: spec_fn(Seq<Op>) -> bool) -> bool {
        exists|ops: Seq<Op>| #[trigger]
            self.gave_shared_to(word, ops, None) && word.reader_came_and_left(ops) && such(ops)
    }

    /// A writer with such operations got in on `word`, asked the cell after that, was refused, and has
    /// left again.
    pub open spec fn refused_writer(&self, word: LockWord, such: spec_fn(Seq<Op>) -> bool) -> bool {
        exists|ops: Seq<Op>| #[trigger]
            self.gave_exclusive_to(word, ops, None) && word.writer_came_and_left(ops) && such(ops)
    }

    /// The cell was unwrapped and `value` came out. Only unwrapping establishes this.
    pub closed spec fn gave_out(&self, value: T) -> bool {
        call_ensures(unwrap::<T>, (*self,), value)
    }

    /// The cell, which nobody shared, was opened and gave the reference `r`. Only opening it
    /// establishes this.
    pub closed spec fn gave_open(&self, r: &mut T) -> bool {
        exists|cell: &mut ValueCell<T>| #[trigger]
            call_ensures(open_unshared::<T>, (cell,), r) && *cell == *self
    }

    /// Exclusive access to the cell was given out at some time. The lock inside a cell can be reached
    /// in this module alone, and [`ask_exclusive`] is the one place that asks it for such access.
    pub open spec fn lent(&self) -> bool {
        exists|word: LockWord, ops: Seq<Op>, guard: RwLockWriteGuard<'_, T>| #[trigger]
            self.gave_exclusive_to(word, ops, Some(guard))
    }

    /// What the cell was set to is `x`, unless exclusive access was given out.
    pub open spec fn vouches_for(&self, x: T) -> bool {
        forall|value: T| #[trigger] self.set_to(value) ==> x == value || self.lent()
    }

    /// A cell that holds `value`.
    pub fn new(value: T) -> (r: ValueCell<T>)
        ensures
            r.set_to(value),
        opens_invariants none
        no_unwind
    {
        make(value)
    }

    /// Shared access for a reader that has its place, or `None` where somebody has exclusive access.
    pub(crate) fn share<'a>(&'a self, slot: &ReaderSlot<'_>, turn: CellTurn) -> (r: Option<
        RwLockReadGuard<'a, T>,
    >)
        ensures
            self.gave_shared_to(slot.word(), slot.log(), r),
            r matches Some(guard) ==> steady(guard),
            r matches Some(guard) ==> self.vouches_for(shown(guard)),
        opens_invariants none
        no_unwind
    {
        ask_shared(self, slot, turn)
    }

    /// Exclusive access for a writer that has its place, or `None` where somebody has access.
    pub(crate) fn own<'a>(&'a self, slot: &WriterSlot<'_>, turn: CellTurn) -> (r: Option<
        RwLockWriteGuard<'a, T>,
    >)
        ensures
            self.gave_exclusive_to(slot.word(), slot.log(), r),
            r matches Some(guard) ==> settled(guard),
        opens_invariants none
        no_unwind
    {
        ask_exclusive(self, slot, turn)
    }

    /// Takes the value out.
    pub fn into_inner(self) -> (r: T)
        ensures
            self.gave_out(r),
            self.vouches_for(r),
        opens_invariants none
        no_unwind
    {
        unwrap(self)
    }

    /// Borrows the value of a cell that nobody shares. It sets the cell to what the reference is left
    /// at.
    pub fn get_mut(&mut self) -> (r: &mut T)
        ensures
            old(self).gave_open(r),
            old(self).vouches_for(*r),
            final(self).set_to(*final(r)),
        opens_invariants none
        no_unwind
    {
        open_unshared(self)
    }
}

/// A cell keeps what it was set to, unless exclusive access was given out: every shared guard shows
/// it, a reference to the opened cell starts at it, and unwrapping the cell gives it. So taking the
/// value out undoes making the cell, and undoes leaving it at some value after opening it.
pub proof fn law_cell_keeps_what_it_was_set_to<T>(cell: ValueCell<T>, value: T)
    requires
        cell.set_to(value),
    ensures
        forall|word: LockWord, ops: Seq<Op>, guard: RwLockReadGuard<'_, T>| #[trigger]
            cell.gave_shared_to(word, ops, Some(guard)) ==> shown(guard) == value || cell.lent(),
        forall|r: &mut T| #[trigger] cell.gave_open(r) ==> *r == value || cell.lent(),
        forall|out: T| #[trigger] cell.gave_out(out) ==> out == value || cell.lent(),
{
    assert forall|word: LockWord, ops: Seq<Op>, guard: RwLockReadGuard<'_, T>| #[trigger]
        cell.gave_shared_to(word, ops, Some(guard)) implies shown(guard) == value || cell.lent() by {
        assert(cell.vouches_for(shown(guard)));
    }
    assert forall|r: &mut T| #[trigger] cell.gave_open(r) implies *r == value || cell.lent() by {
        assert(cell.vouches_for(*r));
    }
    assert forall|out: T| #[trigger] cell.gave_out(out) implies out == value || cell.lent() by {
        assert(cell.vouches_for(out));
    }
}

/// What a cell is said to have answered, it has answered: to somebody with a place on that word and with
/// that log, who used up a right to ask. So is what it is said to have been made with and to have given
/// out.
proof fn law_answers_were_given<'a, T>(
    cell: ValueCell<T>,
    word: LockWord,
    ops: Seq<Op>,
    shared: Option<RwLockReadGuard<'a, T>>,
    exclusive: Option<RwLockWriteGuard<'a, T>>,
    value: T,
)
    ensures
        cell.gave_shared_to(word, ops, shared) ==> exists|slot: ReaderSlot<'_>, turn: CellTurn|
            slot.word() == word && slot.log() == ops && #[trigger] call_ensures(
                ask_shared::<T>,
                (&cell, &slot, turn),
                shared,
            ),
        cell.gave_exclusive_to(word, ops, exclusive) ==> exists|slot: WriterSlot<'_>, turn: CellTurn|
            slot.word() == word && slot.log() == ops && #[trigger] call_ensures(
                ask_exclusive::<T>,
                (&cell, &slot, turn),
                exclusive,
            ),
        cell.set_to(value) ==> call_ensures(make::<T>, (value,), cell),
        cell.gave_out(value) ==> call_ensures(unwrap::<T>, (cell,), value),
{
}

/// A refusal was given to somebody whom the word had let in, who asked after that, and who has left.
pub proof fn law_refusals_follow_the_word<T>(
    cell: ValueCell<T>,
    word: LockWord,
    such: spec_fn(Seq<Op>) -> bool,
)
    ensures
        cell.refused_reader(word, such) ==> exists|ops: Seq<Op>| #[trigger]
            cell.gave_shared_to(word, ops, None) && word.reader_came_and_left(ops) && such(ops),
        cell.refused_writer(word, such) ==> exists|ops: Seq<Op>| #[trigger]
            cell.gave_exclusive_to(word, ops, None) && word.writer_came_and_left(ops) && such(ops),
{
}

} // verus!
