//! What readers and writers do on the word, from coming in to leaving.
//!
//! A visit starts with an empty log and ends with one that holds nothing on the word. In between the
//! log travels with whoever makes the visit, inside a [`ReaderSlot`] or a [`WriterSlot`] once it has
//! come in.

use crate::backoff::Backoff;
use crate::bits::admit_reader;
use crate::bits::flagged;
use crate::bits::has_writer;
use crate::bits::is_drained;
use crate::bits::judge;
use crate::bits::raise_flag;
use crate::bits::readers_in;
use crate::bits::Verdict;
use crate::bits::WRITER;
use crate::trace::came_in;
use crate::trace::came_in_at_last;
use crate::trace::changes;
use crate::trace::found_busy;
use crate::trace::gave_up;
use crate::trace::got_in;
use crate::trace::got_in_alone;
use crate::trace::group_one_more;
use crate::trace::has_to_wait;
use crate::trace::law_giving_up_takes_its_rounds;
use crate::trace::lemma_reader_kept_out;
use crate::trace::lemma_reader_tried;
use crate::trace::lemma_writer_kept_out;
use crate::trace::lemma_writer_tried;
use crate::trace::lemma_writer_waited;
use crate::trace::looks;
use crate::trace::missed_flag;
use crate::trace::only_looked;
use crate::trace::peeks;
use crate::trace::stage_of;
use crate::trace::stepped_back;
use crate::trace::took_free;
use crate::trace::took_free_alone;
use crate::trace::turned_away;
use crate::trace::turned_away_each_time;
use crate::trace::waited_in_vain;
use crate::trace::was_second;
use crate::trace::writer_tries;
use crate::trace::Op;
use crate::word::atomic::law_ended_call_holds_nothing;
use crate::word::atomic::log::Log;
use crate::word::atomic::LockWord;
use vstd::prelude::*;

verus! {

broadcast use group_one_more;

/// How many times a waiting thread looks at the word before it gives up.
///
/// The bound is there so that every call is known to end. A thread that looks a thousand million
/// times a second reaches it after more than five hundred years.
pub const ROUNDS: u64 = 0xffff_ffff_ffff_ffff;

/// What somebody who was let in has done to the word, and whether it has left.
struct Stay {
    log: Log,
    left: bool,
}

/// Takes a reader off the word, unless it has left.
fn end_reading(word: &LockWord, stay: &mut Stay)
    requires
        old(stay).log.on(*word),
    ensures
        final(stay).log.on(*word),
        final(stay).left,
        old(stay).left ==> final(stay).log@ == old(stay).log@,
        !old(stay).left ==> final(stay).log@.len() == old(stay).log@.len() + 1
            && final(stay).log@.drop_last() == old(stay).log@ && final(stay).log@.last() is TakeOff,
    opens_invariants none
    no_unwind
{
    if !stay.left {
        let before: usize = word.take_reader_off(&mut stay.log);
        stay.left = true;
        assert(old(stay).log@.push(Op::TakeOff(before)).drop_last() =~= old(stay).log@);
    }
}

/// Frees the word of the writer that is inside, unless it has left.
fn end_writing(word: &LockWord, stay: &mut Stay)
    requires
        old(stay).log.on(*word),
    ensures
        final(stay).log.on(*word),
        final(stay).left,
        old(stay).left ==> final(stay).log@ == old(stay).log@,
        !old(stay).left ==> final(stay).log@ == old(stay).log@.push(Op::Clear),
    opens_invariants none
    no_unwind
{
    if !stay.left {
        // No reader could get in while the flag was up, so the count is zero and clearing the whole
        // word is the same as putting the flag down.
        word.clear(&mut stay.log);
        stay.left = true;
    }
}

/// The place of one reader on a word. Dropping it takes the reader off.
pub struct ReaderSlot<'a> {
    word: &'a LockWord,
    stay: Stay,
    entry: Ghost<Seq<Op>>,
}

impl<'a> ReaderSlot<'a> {
    /// The word the reader is on.
    pub closed spec fn word(&self) -> LockWord {
        *self.word
    }

    /// What the reader has done to the word.
    pub closed spec fn log(&self) -> Seq<Op> {
        self.stay.log@
    }

    /// What the reader had done to the word when it was let in.
    pub closed spec fn entry(&self) -> Seq<Op> {
        self.entry@
    }

    /// A slot exists only for a reader that was let in. That reader has done nothing to the word since
    /// but to leave it.
    #[verifier::type_invariant]
    closed spec fn genuine(&self) -> bool {
        &&& self.stay.log.on(*self.word)
        &&& stage_of(self.entry@) is Reading
        &&& changes(self.entry@) == 1
        &&& if self.stay.left {
            self.stay.log@.len() == self.entry@.len() + 1 && self.stay.log@.drop_last() == self.entry@
                && self.stay.log@.last() is TakeOff
        } else {
            self.stay.log@ == self.entry@
        }
    }

    /// The slot of a reader that was let in.
    fn new(word: &'a LockWord, log: Log) -> (r: ReaderSlot<'a>)
        requires
            log.on(*word),
            stage_of(log@) is Reading,
            changes(log@) == 1,
        ensures
            r.word() == *word,
            r.log() == log@,
            r.entry() == log@,
        opens_invariants none
        no_unwind
    {
        ReaderSlot { word, entry: Ghost(log@), stay: Stay { log, left: false } }
    }

    /// Leaves the word.
    pub(crate) fn leave(self)
        requires
            stage_of(self.log()) is Reading,
        ensures
            self.word().reader_came_and_left(self.log()),
        opens_invariants none
        no_unwind
    {
        let mut slot = self;
        proof {
            use_type_invariant(&slot);
        }
        assert(!slot.stay.left);
        end_reading(slot.word, &mut slot.stay);
    }
}

impl<'a> Drop for ReaderSlot<'a> {
    fn drop(&mut self)
        ensures
            final(self).word() == old(self).word(),
            final(self).entry() == old(self).entry(),
            final(self).log().len() == old(self).entry().len() + 1,
            final(self).log().drop_last() == old(self).entry(),
            final(self).log().last() is TakeOff,
            stage_of(old(self).log()) is Reading ==> final(self).log().drop_last() == old(self).log(),
        opens_invariants none
        no_unwind
    {
        proof {
            use_type_invariant(&*self);
        }
        end_reading(self.word, &mut self.stay);
    }
}

/// The place of the writer on a word. Dropping it frees the word.
pub struct WriterSlot<'a> {
    word: &'a LockWord,
    stay: Stay,
    entry: Ghost<Seq<Op>>,
}

impl<'a> WriterSlot<'a> {
    /// The word the writer is on.
    pub closed spec fn word(&self) -> LockWord {
        *self.word
    }

    /// What the writer has done to the word.
    pub closed spec fn log(&self) -> Seq<Op> {
        self.stay.log@
    }

    /// What the writer had done to the word when it got in.
    pub closed spec fn entry(&self) -> Seq<Op> {
        self.entry@
    }

    /// A slot exists only for a writer that owns the flag and has no reader beside it. That writer has
    /// done nothing to the word since but to free it.
    #[verifier::type_invariant]
    closed spec fn genuine(&self) -> bool {
        &&& self.stay.log.on(*self.word)
        &&& got_in(self.entry@)
        &&& self.stay.log@ == if self.stay.left {
            self.entry@.push(Op::Clear)
        } else {
            self.entry@
        }
    }

    /// The slot of a writer that owns the flag and has no reader beside it.
    fn new(word: &'a LockWord, log: Log) -> (r: WriterSlot<'a>)
        requires
            log.on(*word),
            got_in(log@),
        ensures
            r.word() == *word,
            r.log() == log@,
            r.entry() == log@,
        opens_invariants none
        no_unwind
    {
        WriterSlot { word, entry: Ghost(log@), stay: Stay { log, left: false } }
    }

    /// Frees the word.
    pub(crate) fn leave(self)
        requires
            stage_of(self.log()) is Inside,
        ensures
            self.word().writer_came_and_left(self.log()),
        opens_invariants none
        no_unwind
    {
        let mut slot = self;
        proof {
            use_type_invariant(&slot);
        }
        assert(!slot.stay.left);
        end_writing(slot.word, &mut slot.stay);
    }
}

impl<'a> Drop for WriterSlot<'a> {
    fn drop(&mut self)
        ensures
            final(self).word() == old(self).word(),
            final(self).entry() == old(self).entry(),
            final(self).log() == old(self).entry().push(Op::Clear),
            stage_of(old(self).log()) is Inside ==> final(self).log() == old(self).log().push(
                Op::Clear,
            ),
        opens_invariants none
        no_unwind
    {
        proof {
            use_type_invariant(&*self);
        }
        end_writing(self.word, &mut self.stay);
    }
}

/// Why the only writer did not get in, with what it has done to the word.
pub enum Refusal {
    /// It is not the only one.
    SecondWriter(Log),
    /// Readers were inside.
    ReadersInside(Log),
}

impl LockWord {
    /// A reader with these operations was let in and has left again. Only leaving establishes this.
    pub closed spec fn reader_came_and_left(&self, ops: Seq<Op>) -> bool {
        exists|stay: &mut Stay|
            !stay.left && stay.log@ == ops && #[trigger] call_ensures(end_reading, (self, stay), ())
    }

    /// A writer with these operations got in and has left again. Only leaving establishes this.
    pub closed spec fn writer_came_and_left(&self, ops: Seq<Op>) -> bool {
        exists|stay: &mut Stay|
            !stay.left && stay.log@ == ops && #[trigger] call_ensures(end_writing, (self, stay), ())
    }

    /// A call with such operations ended and held nothing on the word.
    pub open spec fn visit_with(&self, such: spec_fn(Seq<Op>) -> bool) -> bool {
        exists|ops: Seq<Op>| #[trigger] self.visited(ops) && such(ops)
    }

    /// A call whose log is one relaxed load tells that somebody is on the word, or that nobody is.
    pub open spec fn answered_locked(&self, locked: bool) -> bool {
        exists|bits: usize|
            #[trigger] self.visited(seq![Op::Peek(bits)]) && locked == (bits != 0)
    }

    /// A call whose log is one relaxed load tells that the flag is up, or that it is down.
    pub open spec fn answered_flagged(&self, up: bool) -> bool {
        exists|bits: usize| #[trigger] self.visited(seq![Op::Peek(bits)]) && up == flagged(bits)
    }

    /// A call whose log is one relaxed load tells how many readers are on the word.
    pub open spec fn answered_readers(&self, readers: nat) -> bool {
        exists|bits: usize|
            #[trigger] self.visited(seq![Op::Peek(bits)]) && readers == readers_in(bits)
    }

    /// Lets a reader that was let in leave again.
    pub(crate) fn turn_reader_out(&self, slot: ReaderSlot<'_>)
        requires
            slot.word() == *self,
            stage_of(slot.log()) is Reading,
        ensures
            self.reader_came_and_left(slot.log()),
        opens_invariants none
        no_unwind
    {
        slot.leave();
    }

    /// Lets a writer that got in leave again.
    pub(crate) fn turn_writer_out(&self, slot: WriterSlot<'_>)
        requires
            slot.word() == *self,
            stage_of(slot.log()) is Inside,
        ensures
            self.writer_came_and_left(slot.log()),
        opens_invariants none
        no_unwind
    {
        slot.leave();
    }

    /// Loads the word once, and gives back the log.
    pub(crate) fn ask(&self, log: Log) -> (r: (usize, Log))
        requires
            log.on(*self),
            log@ == Seq::<Op>::empty(),
        ensures
            r.1.clear_of(*self),
            r.1@ == seq![Op::Peek(r.0)],
        opens_invariants none
        no_unwind
    {
        let mut log = log;
        let bits: usize = self.peek(&mut log);
        assert(log@ =~= seq![Op::Peek(bits)]);
        (bits, log)
    }

    /// Adds one reader, but only while no writer is holding the flag.
    pub(crate) fn try_lock_shared(&self, log: Log) -> (r: Result<ReaderSlot<'_>, Log>)
        requires
            log.on(*self),
            log@ == Seq::<Op>::empty(),
        ensures
            match r {
                Ok(slot) => slot.word() == *self && came_in(slot.log()) && stage_of(slot.log()) is Reading,
                Err(log) => log.clear_of(*self) && turned_away(log@),
            },
        opens_invariants none
        no_unwind
    {
        let mut log = log;
        let state: usize = self.peek(&mut log);
        match admit_reader(state) {
            None => Err(log),
            Some(to) => match self.swap(state, to, &mut log) {
                Ok(_) => Ok(ReaderSlot::new(self, log)),
                Err(_) => Err(log),
            },
        }
    }

    /// As [`LockWord::try_lock_shared`], but it may fail for no reason, and it may follow other
    /// tries.
    pub(crate) fn try_lock_shared_weak(&self, log: Log) -> (r: Result<ReaderSlot<'_>, Log>)
        requires
            log.on(*self),
            turned_away_each_time(log@, peeks(log@)),
        ensures
            match r {
                Ok(slot) => slot.word() == *self && came_in_at_last(slot.log()) && peeks(slot.log())
                    == peeks(log@) + 1,
                Err(after) => after.clear_of(*self) && turned_away_each_time(after@, peeks(log@) + 1),
            },
        opens_invariants none
        no_unwind
    {
        let ghost ops = log@;
        let mut log = log;
        let state: usize = self.peek(&mut log);
        match admit_reader(state) {
            None => {
                proof {
                    lemma_reader_kept_out(ops, state);
                }
                Err(log)
            },
            Some(to) => {
                let answer = self.swap_weak(state, to, &mut log);
                proof {
                    lemma_reader_tried(ops, state, to, answer);
                }
                match answer {
                    Ok(_) => Ok(ReaderSlot::new(self, log)),
                    Err(_) => Err(log),
                }
            },
        }
    }

    /// Tries to come in as a reader, over and over, with a wait in between.
    ///
    /// It gives up only after `rounds` tries that all failed.
    pub(crate) fn cas_read(&self, rounds: u64, start: Log) -> (r: Result<ReaderSlot<'_>, Log>)
        requires
            start.on(*self),
            turned_away_each_time(start@, peeks(start@)),
        ensures
            match r {
                Ok(slot) => slot.word() == *self && came_in_at_last(slot.log()) && peeks(slot.log())
                    <= peeks(start@) + rounds && rounds > 0,
                Err(after) => after.clear_of(*self) && turned_away_each_time(
                    after@,
                    peeks(start@) + rounds as nat,
                ),
            },
        opens_invariants none
        no_unwind
    {
        let mut log = start;
        let mut backoff = Backoff::new();
        let mut left: u64 = rounds;
        while left > 0
            invariant
                backoff.wf(),
                left <= rounds,
                log.on(*self),
                turned_away_each_time(log@, peeks(start@) + (rounds - left) as nat),
            decreases left,
        {
            match self.try_lock_shared_weak(log) {
                Ok(slot) => {
                    return Ok(slot);
                },
                Err(after) => {
                    log = after;
                },
            }
            if backoff.is_completed() {
                backoff.reset();
            } else {
                backoff.snooze();
            }
            left = left - 1;
        }
        Err(log)
    }

    /// Exchanges a free word for the bare flag.
    pub(crate) fn claim_free(&self, log: Log) -> (r: Result<WriterSlot<'_>, Log>)
        requires
            log.on(*self),
            log@ == Seq::<Op>::empty(),
        ensures
            match r {
                Ok(slot) => slot.word() == *self && took_free(slot.log()) && got_in(slot.log()),
                Err(log) => log.clear_of(*self) && found_busy(log@),
            },
        opens_invariants none
        no_unwind
    {
        let mut log = log;
        let answer = self.swap(0, WRITER, &mut log);
        assert(log@ =~= seq![Op::Swap(0, WRITER, answer)]);
        match answer {
            Ok(_) => Ok(WriterSlot::new(self, log)),
            Err(_) => Err(log),
        }
    }

    /// As [`LockWord::claim_free`], but it may fail for no reason.
    pub(crate) fn claim_free_weak(&self, log: Log) -> (r: Result<WriterSlot<'_>, Log>)
        requires
            log.on(*self),
            log@ == Seq::<Op>::empty(),
        ensures
            match r {
                Ok(slot) => slot.word() == *self && slot.log() == seq![
                    Op::SwapWeak(0, WRITER, Ok(0)),
                ] && got_in(slot.log()) && writer_tries(slot.log()),
                Err(log) => log.clear_of(*self) && gave_up(log@, 0) && changes(log@) == 0 && looks(log@)
                    == 0 && log@.len() == 1 && (
                log@[0] matches Op::SwapWeak(from, to, Err(_)) && from == 0 && to == WRITER),
            },
        opens_invariants none
        no_unwind
    {
        let mut log = log;
        let answer = self.swap_weak(0, WRITER, &mut log);
        assert(log@ =~= seq![Op::SwapWeak(0, WRITER, answer)]);
        match answer {
            Ok(_) => Ok(WriterSlot::new(self, log)),
            Err(_) => Err(log),
        }
    }

    /// Spins until the readers that were already inside when the flag went up have all left.
    ///
    /// The flag is up by now, so no new reader can join and the count only goes down. `false` comes
    /// only after `rounds` looks that all found readers.
    fn drain_readers(&self, rounds: u64, log: &mut Log) -> (r: bool)
        requires
            old(log).on(*self),
            stage_of(old(log)@) is Waiting,
        ensures
            final(log).on(*self),
            only_looked(old(log)@, final(log)@),
            final(log)@.len() <= old(log)@.len() + rounds,
            changes(final(log)@) == changes(old(log)@),
            peeks(final(log)@) == peeks(old(log)@),
            writer_tries(old(log)@) && has_to_wait(old(log)@.last()) ==> writer_tries(final(log)@)
                && (!r ==> has_to_wait(final(log)@.last())),
            r ==> stage_of(final(log)@) is Inside && final(log)@.len() > old(log)@.len() && final(log)@.last() == Op::Look(WRITER),
            !r ==> stage_of(final(log)@) is Waiting && final(log)@.len() == old(log)@.len() + rounds
                && looks(final(log)@) == looks(old(log)@) + rounds,
            forall|i: int|
                #![trigger final(log)@[i]]
                old(log)@.len() <= i < final(log)@.len() - if r {
                    1int
                } else {
                    0int
                } ==> final(log)@[i] != Op::Look(WRITER),
        opens_invariants none
        no_unwind
    {
        assert(log@.subrange(0, old(log)@.len() as int) =~= old(log)@);
        let mut backoff = Backoff::new();
        let mut left: u64 = rounds;
        while left > 0
            invariant
                backoff.wf(),
                left <= rounds,
                log.on(*self),
                only_looked(old(log)@, log@),
                log@.len() == old(log)@.len() + (rounds - left),
                changes(log@) == changes(old(log)@),
                peeks(log@) == peeks(old(log)@),
                looks(log@) == looks(old(log)@) + (rounds - left),
                writer_tries(old(log)@) && has_to_wait(old(log)@.last()) ==> writer_tries(log@)
                    && has_to_wait(log@.last()),
                log@.len() > 0,
                stage_of(log@) is Waiting,
                forall|i: int|
                    #![trigger log@[i]]
                    old(log)@.len() <= i < log@.len() ==> log@[i] != Op::Look(WRITER),
            decreases left,
        {
            let ghost ops = log@;
            let state: usize = self.look(log);
            proof {
                assert(log@.subrange(0, old(log)@.len() as int) =~= ops.subrange(
                    0,
                    old(log)@.len() as int,
                ));
                if writer_tries(ops) && has_to_wait(ops.last()) {
                    lemma_writer_waited(ops, Op::Look(state));
                }
            }
            if is_drained(state) {
                return true;
            }
            if backoff.is_completed() {
                backoff.reset();
            } else {
                backoff.snooze();
            }
            left = left - 1;
        }
        false
    }

    /// Claims the writer flag, then waits for the readers to drain.
    ///
    /// The loop itself only deals with the other writers: while the flag is up it keeps waiting,
    /// and once it is down an exchange claims it, leaving the reader count untouched. Only after
    /// winning the flag does it wait on the readers. Where they stay for `rounds` looks, the flag
    /// goes down again.
    pub(crate) fn lock_exclusive_slow(&self, rounds: u64, log: Log) -> (r: Result<
        WriterSlot<'_>,
        Log,
    >)
        requires
            log.on(*self),
            gave_up(log@, 0),
            changes(log@) == 0,
            looks(log@) == 0,
            log@.len() > 0 ==> missed_flag(log@.last()),
        ensures
            match r {
                Ok(slot) => slot.word() == *self && got_in(slot.log()) && writer_tries(slot.log())
                    && peeks(slot.log()) <= rounds && rounds > 0,
                Err(after) => after.clear_of(*self) && gave_up(after@, rounds as nat),
            },
        opens_invariants none
        no_unwind
    {
        let mut log = log;
        let mut backoff = Backoff::new();
        let mut left: u64 = rounds;
        while left > 0
            invariant
                backoff.wf(),
                left <= rounds,
                log.on(*self),
                gave_up(log@, (rounds - left) as nat),
                changes(log@) == 0,
                looks(log@) == 0,
                log@.len() > 0 ==> missed_flag(log@.last()),
            decreases left,
        {
            let ghost ops = log@;
            let state: usize = self.peek(&mut log);
            if has_writer(state) {
                proof {
                    lemma_writer_kept_out(ops, state);
                }
            } else {
                let answer = self.swap_weak(state, raise_flag(state), &mut log);
                proof {
                    lemma_writer_tried(ops, state, answer);
                }
                if let Ok(_) = answer {
                    if state != 0 && !self.drain_readers(rounds, &mut log) {
                        let ghost seen = log@;
                        let before: usize = self.put_flag_down(&mut log);
                        proof {
                            lemma_writer_waited(seen, Op::FlagDown(before));
                        }
                        return Err(log);
                    }
                    return Ok(WriterSlot::new(self, log));
                }
            }
            if backoff.is_completed() {
                backoff.reset();
            } else {
                backoff.snooze();
            }
            left = left - 1;
        }
        Err(log)
    }

    /// Puts the flag up, and backs off at once if a reader is inside.
    pub(crate) fn try_lock_single(&self, log: Log) -> (r: Result<WriterSlot<'_>, Refusal>)
        requires
            log.on(*self),
            log@ == Seq::<Op>::empty(),
        ensures
            match r {
                Ok(slot) => slot.word() == *self && took_free_alone(slot.log()) && got_in(slot.log()),
                Err(Refusal::SecondWriter(log)) => log.clear_of(*self) && was_second(log@),
                Err(Refusal::ReadersInside(log)) => log.clear_of(*self) && stepped_back(log@),
            },
        opens_invariants none
        no_unwind
    {
        let mut log = log;
        let prev: usize = self.put_flag_up(&mut log);
        assert(log@ =~= seq![Op::FlagUp(prev)]);
        match judge(prev) {
            Verdict::SecondWriter => Err(Refusal::SecondWriter(log)),
            Verdict::Inside => Ok(WriterSlot::new(self, log)),
            Verdict::ReadersInside => {
                // Readers are still inside, so put the flag back down and let them finish. Nobody
                // else can be touching the flag, so a plain clear is enough.
                let _before: usize = self.put_flag_down(&mut log);
                Err(Refusal::ReadersInside(log))
            },
        }
    }

    /// Puts the flag up, then waits for the readers to drain. Where they stay for `rounds` looks,
    /// the flag goes down again.
    pub(crate) fn lock_single(&self, rounds: u64, log: Log) -> (r: Result<WriterSlot<'_>, Refusal>)
        requires
            log.on(*self),
            log@ == Seq::<Op>::empty(),
        ensures
            match r {
                Ok(slot) => slot.word() == *self && got_in(slot.log()) && got_in_alone(
                    slot.log(),
                    rounds as nat,
                ),
                Err(Refusal::SecondWriter(log)) => log.clear_of(*self) && was_second(log@),
                Err(Refusal::ReadersInside(log)) => log.clear_of(*self) && waited_in_vain(
                    log@,
                    rounds as nat,
                ),
            },
        opens_invariants none
        no_unwind
    {
        let mut log = log;
        let prev: usize = self.put_flag_up(&mut log);
        let ghost up = log@;
        assert(up =~= seq![Op::FlagUp(prev)]);
        match judge(prev) {
            Verdict::SecondWriter => Err(Refusal::SecondWriter(log)),
            Verdict::Inside => Ok(WriterSlot::new(self, log)),
            Verdict::ReadersInside => {
                let drained = self.drain_readers(rounds, &mut log);
                assert(log@[0] == log@.subrange(0, 1)[0]);
                if drained {
                    Ok(WriterSlot::new(self, log))
                } else {
                    let _before: usize = self.put_flag_down(&mut log);
                    Err(Refusal::ReadersInside(log))
                }
            },
        }
    }
}

/// What the questions tell is the word that one relaxed load gave, and nothing but that: whether it is
/// zero, whether it is odd, and half of it.
pub proof fn law_questions_tell_the_word(word: LockWord, bits: usize)
    requires
        word.visited(seq![Op::Peek(bits)]),
    ensures
        word.answered_locked(bits != 0),
        word.answered_flagged(bits % 2 == 1),
        word.answered_readers((bits / 2) as nat),
{
}

/// An answer to a question comes from a call whose whole log is one relaxed load, of a word that it is
/// true of.
pub proof fn law_answers_come_from_the_word(
    word: LockWord,
    locked: bool,
    up: bool,
    readers: nat,
)
    ensures
        word.answered_locked(locked) ==> exists|bits: usize| #[trigger]
            word.visited(seq![Op::Peek(bits)]) && locked == (bits != 0),
        word.answered_flagged(up) ==> exists|bits: usize| #[trigger]
            word.visited(seq![Op::Peek(bits)]) && up == (bits % 2 == 1),
        word.answered_readers(readers) ==> exists|bits: usize| #[trigger]
            word.visited(seq![Op::Peek(bits)]) && readers == bits / 2,
{
}

/// A call that came back with nothing has made such a visit, and holds nothing.
pub proof fn law_visit_was_made(word: LockWord, such: spec_fn(Seq<Op>) -> bool)
    requires
        word.visit_with(such),
    ensures
        exists|ops: Seq<Op>| #[trigger] word.visited(ops) && such(ops) && stage_of(ops) is Out,
{
    let ops = choose|ops: Seq<Op>| #[trigger] word.visited(ops) && such(ops);
    law_ended_call_holds_nothing(word, ops);
}

/// A wait ends in vain only after as many looks as a machine word of 64 bits can count, whatever kind of
/// wait it is.
pub proof fn law_waits_are_long(ops: Seq<Op>)
    ensures
        turned_away_each_time(ops, ROUNDS as nat + 1) ==> ops.len() > 0xffff_ffff_ffff_ffff,
        gave_up(ops, ROUNDS as nat) ==> ops.len() >= 0xffff_ffff_ffff_ffff,
        waited_in_vain(ops, ROUNDS as nat) ==> ops.len() > 0xffff_ffff_ffff_ffff,
{
    law_giving_up_takes_its_rounds(ops, ROUNDS as nat);
    law_giving_up_takes_its_rounds(ops, ROUNDS as nat + 1);
}

/// Whoever came and left ended its stay by the one operation that does so.
proof fn law_leaving_was_done(word: LockWord, ops: Seq<Op>)
    ensures
        word.reader_came_and_left(ops) ==> exists|stay: &mut Stay|
            !stay.left && stay.log@ == ops && #[trigger] call_ensures(end_reading, (&word, stay), ()),
        word.writer_came_and_left(ops) ==> exists|stay: &mut Stay|
            !stay.left && stay.log@ == ops && #[trigger] call_ensures(end_writing, (&word, stay), ()),
{
}

} // verus!
