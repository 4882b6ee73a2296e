//! How a thread waits between two looks at a busy lock.

use vstd::prelude::*;

verus! {

/// How often a backoff snoozes before it is completed.
pub const SNOOZES: u32 = 10;

/// The largest number of pauses in one snooze.
pub const LONGEST: u32 = 64;

/// Tells the processor that the thread is in a wait loop, through `std::hint::spin_loop`.
///
/// Nothing is claimed of it but that it returns: it is a hint, with no result and no effect that a
/// program can see.
#[verifier::external_body]
fn pause()
    opens_invariants none
    no_unwind
{
    std::hint::spin_loop()
}

/// A wait that gets longer each time: every snooze takes twice the pauses of the one before it, up
/// to a limit.
pub struct Backoff {
    step: u32,
    pauses: u32,
}

/// The number of pauses in a snooze that comes after one of `pauses`.
pub open spec fn longer(pauses: u32) -> u32 {
    if 2 * pauses <= LONGEST {
        (2 * pauses) as u32
    } else {
        LONGEST
    }
}

impl Backoff {
    /// How many snoozes there have been since the start or the last reset.
    pub closed spec fn step(&self) -> u32 {
        self.step
    }

    /// How many pauses the next snooze takes.
    pub closed spec fn pauses(&self) -> u32 {
        self.pauses
    }

    /// The limits that hold from the start and after every operation.
    pub open spec fn wf(&self) -> bool {
        &&& self.step() <= SNOOZES
        &&& 1 <= self.pauses() <= LONGEST
    }

    /// A backoff that has not waited yet.
    pub fn new() -> (r: Backoff)
        ensures
            r.wf(),
            r.step() == 0,
            r.pauses() == 1,
        opens_invariants none
        no_unwind
    {
        Backoff { step: 0, pauses: 1 }
    }

    /// Whether the wait has been as long as it is going to be.
    pub fn is_completed(&self) -> (r: bool)
        ensures
            r == (self.step() >= SNOOZES),
        opens_invariants none
        no_unwind
    {
        self.step >= SNOOZES
    }

    /// Starts over with the shortest wait.
    pub fn reset(&mut self)
        ensures
            final(self).wf(),
            final(self).step() == 0,
            final(self).pauses() == 1,
        opens_invariants none
        no_unwind
    {
        self.step = 0;
        self.pauses = 1;
    }

    /// Waits once, and makes the next wait longer.
    pub fn snooze(&mut self)
        requires
            old(self).wf(),
        ensures
            final(self).wf(),
            final(self).step() == if old(self).step() < SNOOZES {
                (old(self).step() + 1) as u32
            } else {
                old(self).step()
            },
            final(self).pauses() == longer(old(self).pauses()),
        opens_invariants none
        no_unwind
    {
        let mut left: u32 = self.pauses;
        while left > 0
            decreases left,
        {
            pause();
            left = left - 1;
        }
        if self.pauses <= LONGEST / 2 {
            self.pauses = 2 * self.pauses;
        } else {
            self.pauses = LONGEST;
        }
        if self.step < SNOOZES {
            self.step = self.step + 1;
        }
    }
}

} // verus!
