//! The log of a call: what it has done to the word so far.

use crate::locks::turn::WordTurn;
use crate::trace::stage_of;
use crate::trace::Op;
use crate::word::atomic::LockWord;
use vstd::prelude::*;

verus! {

/// What a call has done to the word of a lock so far. It takes no room at run time.
pub struct Log {
    word: Ghost<LockWord>,
    ops: Ghost<Seq<Op>>,
    busy: Ghost<bool>,
}

/// The right to one atomic operation on a word.
pub struct Permit {
    token: (),
}

impl Permit {
    /// What every permit looks like.
    pub closed spec fn one() -> Permit {
        Permit { token: () }
    }
}

impl Log {
    /// The operations, in the order in which they were made.
    pub closed spec fn view(&self) -> Seq<Op> {
        self.ops@
    }

    /// The word that the log is about.
    pub closed spec fn word(&self) -> LockWord {
        self.word@
    }

    /// Whether an operation has been permitted and not yet noted.
    pub closed spec fn busy(&self) -> bool {
        self.busy@
    }

    /// The log is about `word`, and every operation permitted so far has been noted.
    pub open spec fn on(&self, word: LockWord) -> bool {
        self.word() == word && !self.busy()
    }

    /// The log is about `word`, and with what is in it the call holds nothing.
    pub open spec fn clear_of(&self, word: LockWord) -> bool {
        self.on(word) && stage_of(self@) is Out
    }

    /// An empty log about `word`, for one call of a lock.
    pub(crate) fn start(Ghost(word): Ghost<LockWord>, turn: WordTurn) -> (r: Log)
        ensures
            r.on(word),
            r@ == Seq::<Op>::empty(),
        opens_invariants none
        no_unwind
    {
        let _ = turn;
        Log { word: Ghost(word), ops: Ghost(Seq::empty()), busy: Ghost(false) }
    }

    /// Permits one operation.
    pub(in crate::word::atomic) fn permit(&mut self) -> (r: Permit)
        requires
            !old(self).busy(),
        ensures
            final(self).busy(),
            final(self).word() == old(self).word(),
            final(self)@ == old(self)@,
            r == Permit::one(),
        opens_invariants none
        no_unwind
    {
        self.busy = Ghost(true);
        Permit { token: () }
    }

    /// Notes the operation that was permitted last.
    pub(in crate::word::atomic) fn note(&mut self, Ghost(op): Ghost<Op>)
        requires
            old(self).busy(),
        ensures
            !final(self).busy(),
            final(self).word() == old(self).word(),
            final(self)@ == old(self)@.push(op),
        opens_invariants none
        no_unwind
    {
        self.ops = Ghost(self.ops@.push(op));
        self.busy = Ghost(false);
    }

    /// Ends the log of a call that holds nothing on the word. Every operation that was permitted has
    /// been noted.
    pub(in crate::word::atomic) fn close(self)
        requires
            !self.busy(),
            stage_of(self@) is Out,
        ensures
            !self.busy(),
            stage_of(self@) is Out,
        opens_invariants none
        no_unwind
    {
    }
}

/// A log is on a word only with no operation permitted that it has not noted, and clear of it only if what
/// it holds leaves nothing there.
pub proof fn law_log_is_idle(log: Log, word: LockWord)
    ensures
        log.on(word) <==> log.word() == word && !log.busy(),
        log.clear_of(word) <==> log.on(word) && stage_of(log@) is Out,
{
}

} // verus!
