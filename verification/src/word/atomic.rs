//! The atomic word of a lock.
//!
//! Other threads change the word at any moment, so a contract here does not say what the word is.
//! It says which atomic operation was made, with which arguments and ordering, what it gave back,
//! and that it was noted in a log. An operation needs a permit, a permit comes from a log, and a log
//! gives out the next one only when the last operation has been noted. So what a log does not hold
//! was not done under it. A log uses up the right to it that came with the turn of a call, and a method
//! of a lock begins one turn.
//!
//! The operations here open no invariant and do not unwind. The atomic operations of the standard
//! library are not known to be so, and that keeps them out: an operation on the atomic can only be made
//! through the functions below, which take a permit and state what the standard library does not.

use crate::bits::READER;
use crate::bits::WRITER;
use crate::trace::stage_of;
use crate::trace::Op;
use crate::word::atomic::log::Log;
use crate::word::atomic::log::Permit;
use std::sync::atomic::AtomicUsize;
use std::sync::atomic::Ordering;
use vstd::prelude::*;

pub mod log;

verus! {

/// `AtomicUsize::load`, which panics on the orderings that are left out. Nothing is claimed of the
/// result, which depends on other threads, and it does not unwind.
#[verifier::external_body]
fn load(atomic: &AtomicUsize, order: Ordering, permit: Permit) -> (bits: usize)
    requires
        order == Ordering::Relaxed || order == Ordering::Acquire,
    opens_invariants none
    no_unwind
{
    atomic.load(order)
}

/// `AtomicUsize::compare_exchange`, with `order` on success and relaxed on failure.
///
/// The claim is that the result carries the value that was there before: on success the expected
/// one, on failure another one. It does not unwind.
#[verifier::external_body]
fn exchange(atomic: &AtomicUsize, from: usize, to: usize, order: Ordering, permit: Permit) -> (r:
    Result<usize, usize>)
    ensures
        r matches Ok(found) ==> found == from,
        r matches Err(found) ==> found != from,
    opens_invariants none
    no_unwind
{
    atomic.compare_exchange(from, to, order, Ordering::Relaxed)
}

/// `AtomicUsize::compare_exchange_weak`, with `order` on success and relaxed on failure.
///
/// The claim is that on success the value that was there before is the expected one. On failure it
/// may be any value, since this operation may fail for no reason. It does not unwind.
#[verifier::external_body]
fn exchange_weak(atomic: &AtomicUsize, from: usize, to: usize, order: Ordering, permit: Permit) -> (r:
    Result<usize, usize>)
    ensures
        r matches Ok(found) ==> found == from,
    opens_invariants none
    no_unwind
{
    atomic.compare_exchange_weak(from, to, order, Ordering::Relaxed)
}

/// `AtomicUsize::fetch_or`. It gives back the value that was there before, of which nothing is
/// claimed, and it does not unwind.
#[verifier::external_body]
fn set_bits(atomic: &AtomicUsize, mask: usize, order: Ordering, permit: Permit) -> (before: usize)
    opens_invariants none
    no_unwind
{
    atomic.fetch_or(mask, order)
}

/// `AtomicUsize::fetch_and`. It gives back the value that was there before, of which nothing is
/// claimed, and it does not unwind.
#[verifier::external_body]
fn keep_bits(atomic: &AtomicUsize, mask: usize, order: Ordering, permit: Permit) -> (before: usize)
    opens_invariants none
    no_unwind
{
    atomic.fetch_and(mask, order)
}

/// `AtomicUsize::fetch_sub`. It gives back the value that was there before, of which nothing is
/// claimed, and it does not unwind.
#[verifier::external_body]
fn subtract(atomic: &AtomicUsize, amount: usize, order: Ordering, permit: Permit) -> (before: usize)
    opens_invariants none
    no_unwind
{
    atomic.fetch_sub(amount, order)
}

/// `AtomicUsize::store`, which panics on the orderings that are left out. It does not unwind.
#[verifier::external_body]
fn put(atomic: &AtomicUsize, bits: usize, order: Ordering, permit: Permit)
    requires
        order == Ordering::Relaxed || order == Ordering::Release,
    opens_invariants none
    no_unwind
{
    atomic.store(bits, order)
}

/// The atomic word of a lock.
pub struct LockWord {
    atomic: AtomicUsize,
}

impl LockWord {
    /// The word was made to start at `bits`.
    pub closed spec fn made_with(&self, bits: usize) -> bool {
        call_ensures(AtomicUsize::new, (bits,), self.atomic)
    }

    /// The operation was made on the word, with this answer and the ordering that belongs to it. Only
    /// making it establishes this.
    pub closed spec fn made(&self, op: Op) -> bool {
        match op {
            Op::Peek(bits) => call_ensures(
                load,
                (&self.atomic, Ordering::Relaxed, Permit::one()),
                bits,
            ),
            Op::Look(bits) => call_ensures(
                load,
                (&self.atomic, Ordering::Acquire, Permit::one()),
                bits,
            ),
            Op::Swap(from, to, answer) => call_ensures(
                exchange,
                (&self.atomic, from, to, Ordering::Acquire, Permit::one()),
                answer,
            ),
            Op::SwapWeak(from, to, answer) => call_ensures(
                exchange_weak,
                (&self.atomic, from, to, Ordering::Acquire, Permit::one()),
                answer,
            ),
            Op::FlagUp(before) => call_ensures(
                set_bits,
                (&self.atomic, WRITER, Ordering::Acquire, Permit::one()),
                before,
            ),
            Op::FlagDown(before) => call_ensures(
                keep_bits,
                (&self.atomic, !WRITER, Ordering::Relaxed, Permit::one()),
                before,
            ),
            Op::TakeOff(before) => call_ensures(
                subtract,
                (&self.atomic, READER, Ordering::Release, Permit::one()),
                before,
            ),
            Op::Clear => call_ensures(
                put,
                (&self.atomic, 0usize, Ordering::Release, Permit::one()),
                (),
            ),
        }
    }

    /// A call ended and held nothing on the word. Its log holds these operations and no others, and every
    /// operation that was permitted under it is among them.
    pub closed spec fn visited(&self, ops: Seq<Op>) -> bool {
        exists|log: Log|
            log@ == ops && log.word() == *self && #[trigger] call_ensures(Log::close, (log,), ())
    }

    /// A word with nobody on it.
    pub(crate) fn new() -> (r: LockWord)
        ensures
            r.made_with(0),
    {
        LockWord { atomic: AtomicUsize::new(0) }
    }

    /// Ends a call that holds nothing on the word.
    pub(crate) fn depart(&self, log: Log)
        requires
            log.clear_of(*self),
        ensures
            self.visited(log@),
        opens_invariants none
        no_unwind
    {
        log.close();
        assert(call_ensures(Log::close, (log,), ()));
    }

    /// Loads the word with no ordering.
    pub(in crate::word) fn peek(&self, log: &mut Log) -> (bits: usize)
        requires
            old(log).on(*self),
        ensures
            final(log).on(*self),
            final(log)@ == old(log)@.push(Op::Peek(bits)),
            self.made(Op::Peek(bits)),
        opens_invariants none
        no_unwind
    {
        let permit = log.permit();
        let bits: usize = load(&self.atomic, Ordering::Relaxed, permit);
        log.note(Ghost(Op::Peek(bits)));
        bits
    }

    /// Loads the word, acquiring.
    pub(in crate::word) fn look(&self, log: &mut Log) -> (bits: usize)
        requires
            old(log).on(*self),
        ensures
            final(log).on(*self),
            final(log)@ == old(log)@.push(Op::Look(bits)),
            self.made(Op::Look(bits)),
        opens_invariants none
        no_unwind
    {
        let permit = log.permit();
        let bits: usize = load(&self.atomic, Ordering::Acquire, permit);
        log.note(Ghost(Op::Look(bits)));
        bits
    }

    /// Exchanges `from` for `to` if the word is `from`, and gives back the word that was there.
    pub(in crate::word) fn swap(&self, from: usize, to: usize, log: &mut Log) -> (answer: Result<usize, usize>)
        requires
            old(log).on(*self),
        ensures
            final(log).on(*self),
            final(log)@ == old(log)@.push(Op::Swap(from, to, answer)),
            self.made(Op::Swap(from, to, answer)),
            answer matches Ok(found) ==> found == from,
            answer matches Err(found) ==> found != from,
        opens_invariants none
        no_unwind
    {
        let permit = log.permit();
        let answer: Result<usize, usize> = exchange(
            &self.atomic,
            from,
            to,
            Ordering::Acquire,
            permit,
        );
        log.note(Ghost(Op::Swap(from, to, answer)));
        answer
    }

    /// As [`LockWord::swap`], but it may fail for no reason.
    pub(in crate::word) fn swap_weak(&self, from: usize, to: usize, log: &mut Log) -> (answer: Result<usize, usize>)
        requires
            old(log).on(*self),
        ensures
            final(log).on(*self),
            final(log)@ == old(log)@.push(Op::SwapWeak(from, to, answer)),
            self.made(Op::SwapWeak(from, to, answer)),
            answer matches Ok(found) ==> found == from,
        opens_invariants none
        no_unwind
    {
        let permit = log.permit();
        let answer: Result<usize, usize> = exchange_weak(
            &self.atomic,
            from,
            to,
            Ordering::Acquire,
            permit,
        );
        log.note(Ghost(Op::SwapWeak(from, to, answer)));
        answer
    }

    /// Puts the flag up whatever the word is, and gives back the word that was there before.
    pub(in crate::word) fn put_flag_up(&self, log: &mut Log) -> (before: usize)
        requires
            old(log).on(*self),
        ensures
            final(log).on(*self),
            final(log)@ == old(log)@.push(Op::FlagUp(before)),
            self.made(Op::FlagUp(before)),
        opens_invariants none
        no_unwind
    {
        let permit = log.permit();
        let before: usize = set_bits(&self.atomic, WRITER, Ordering::Acquire, permit);
        log.note(Ghost(Op::FlagUp(before)));
        before
    }

    /// Puts the flag down whatever the word is, and gives back the word that was there before.
    pub(in crate::word) fn put_flag_down(&self, log: &mut Log) -> (before: usize)
        requires
            old(log).on(*self),
        ensures
            final(log).on(*self),
            final(log)@ == old(log)@.push(Op::FlagDown(before)),
            self.made(Op::FlagDown(before)),
        opens_invariants none
        no_unwind
    {
        let permit = log.permit();
        let before: usize = keep_bits(&self.atomic, !WRITER, Ordering::Relaxed, permit);
        log.note(Ghost(Op::FlagDown(before)));
        before
    }

    /// Takes one reader off, and gives back the word that was there before.
    pub(in crate::word) fn take_reader_off(&self, log: &mut Log) -> (before: usize)
        requires
            old(log).on(*self),
        ensures
            final(log).on(*self),
            final(log)@ == old(log)@.push(Op::TakeOff(before)),
            self.made(Op::TakeOff(before)),
        opens_invariants none
        no_unwind
    {
        let permit = log.permit();
        let before: usize = subtract(&self.atomic, READER, Ordering::Release, permit);
        log.note(Ghost(Op::TakeOff(before)));
        before
    }

    /// Sets the whole word to zero.
    pub(in crate::word) fn clear(&self, log: &mut Log)
        requires
            old(log).on(*self),
        ensures
            final(log).on(*self),
            final(log)@ == old(log)@.push(Op::Clear),
            self.made(Op::Clear),
        opens_invariants none
        no_unwind
    {
        let permit = log.permit();
        put(&self.atomic, 0, Ordering::Release, permit);
        log.note(Ghost(Op::Clear));
    }
}

/// An operation that was made is the one that its name says: the atomic function, its arguments and its
/// ordering. Whatever lets somebody in acquires, and whatever lets somebody out releases.
proof fn law_operations_are_what_they_are_called(
    word: LockWord,
    from: usize,
    to: usize,
    answer: Result<usize, usize>,
    bits: usize,
)
    ensures
        word.made(Op::Peek(bits)) ==> call_ensures(
            load,
            (&word.atomic, Ordering::Relaxed, Permit::one()),
            bits,
        ),
        word.made(Op::Look(bits)) ==> call_ensures(
            load,
            (&word.atomic, Ordering::Acquire, Permit::one()),
            bits,
        ),
        word.made(Op::Swap(from, to, answer)) ==> call_ensures(
            exchange,
            (&word.atomic, from, to, Ordering::Acquire, Permit::one()),
            answer,
        ),
        word.made(Op::SwapWeak(from, to, answer)) ==> call_ensures(
            exchange_weak,
            (&word.atomic, from, to, Ordering::Acquire, Permit::one()),
            answer,
        ),
        word.made(Op::FlagUp(bits)) ==> call_ensures(
            set_bits,
            (&word.atomic, 1usize, Ordering::Acquire, Permit::one()),
            bits,
        ),
        word.made(Op::FlagDown(bits)) ==> call_ensures(
            keep_bits,
            (&word.atomic, !1usize, Ordering::Relaxed, Permit::one()),
            bits,
        ),
        word.made(Op::TakeOff(bits)) ==> call_ensures(
            subtract,
            (&word.atomic, 2usize, Ordering::Release, Permit::one()),
            bits,
        ),
        word.made(Op::Clear) ==> call_ensures(
            put,
            (&word.atomic, 0usize, Ordering::Release, Permit::one()),
            (),
        ),
        word.made_with(bits) ==> call_ensures(AtomicUsize::new, (bits,), word.atomic),
        word.made(Op::Swap(from, to, answer)) ==> (answer matches Ok(found) ==> found == from) && (
        answer matches Err(found) ==> found != from),
        word.made(Op::SwapWeak(from, to, answer)) ==> (answer matches Ok(found) ==> found == from),
{
}

/// A call that has ended holds nothing, and its log was closed with every permitted operation in it.
proof fn law_visits_were_closed(word: LockWord, ops: Seq<Op>)
    requires
        word.visited(ops),
    ensures
        exists|log: Log|
            log@ == ops && log.word() == word && !log.busy() && #[trigger] call_ensures(
                Log::close,
                (log,),
                (),
            ),
{
}

/// A call that has ended holds nothing on the word.
pub proof fn law_ended_call_holds_nothing(word: LockWord, ops: Seq<Op>)
    requires
        word.visited(ops),
    ensures
        stage_of(ops) is Out,
{
}

} // verus!
