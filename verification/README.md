# spinlocks

Two spin locks for values that are read far more often than they are written, verified with Verus.

- `MwmrSpinLock`: many writers that take turns, many readers at once.
- `SwmrSpinLock`: one writer, many readers at once. A second writer gets the error `SecondWriter`.

Both keep their whole state in one atomic number: bit 0 is the writer flag, the rest counts the
readers inside. A writer first puts the flag up, which stops new readers, and then waits for the
readers that are already inside.

## Layout

- `src/bits.rs`: what the number means, and the decisions taken on it.
- `src/trace.rs`: the operations that a call can make on the word, and where they bring it.
- `src/word/atomic.rs`, `src/word/atomic/log.rs`: the atomic operations, and the log they are noted in.
- `src/word/visit.rs`: what readers and writers do on the word, from coming in to leaving.
- `src/cell.rs`: where the value is kept.
- `src/backoff.rs`: the wait between two looks at a busy lock.
- `src/access.rs`: the calls on a lock, each from its one turn to a place on the word and a guard of
  the cell.
- `src/locks/`: the locks, their guards, and the right to make a call on one.
- `src/undisturbed.rs`: what a call comes to if nobody else touches the lock.
- `src/protocol.rs`: what the locks promise over every interleaving of threads.
- `src/schedule.rs`: that every interleaving of calls is a run of that protocol.
- `src/progress.rs`: that a writer which waits for readers to leave gets in.
- `app/`: access that waits without a bound.

## How to read the contracts

Other threads change the word at any moment, so no contract says what the word is. Every operation
on the word is noted in the log of the call that makes it, and the contracts speak of that log. A
guard carries the log of the call it came from. For a call that came back with nothing, `visited`
says which operations its log held at the end.

For example, `try_write` of `MwmrSpinLock` returns a guard only where its log holds one compare
exchange of 0 for the flag that succeeded, and nothing else. It returns `None` only where its log
holds that one exchange and it found another value, or where it got in, was refused by the cell and
has left again.

Code outside `src/word/atomic.rs` cannot reach the atomic, code outside `src/word` cannot make a
single operation, and code outside `src/locks` cannot begin a turn, which is good for one log and for
asking the cell once. Asking the cell takes a place on the word, and the contracts say with which log
it was asked, so a call asks only after the word has let it in. What the contracts say of a log they say of the operations made under it. That a
method of a lock begins one turn and no more is to be seen in its body, which is one call.

The value sits in a `std::sync::RwLock`. It changes behind a shared reference, and a guard that is
dropped leaves no mark in a contract, so of the value the contracts say this: a guard keeps showing
one value, a write guard holds what was last written through it, and the cell gives back what it was
set to, by making it or through `get_mut`, unless write access was given out since.

## How the laws hang together

The operations in a log bring a call from holding nothing to reading, or to waiting with the flag up
and then to being inside, and back. `schedule.rs` takes any number of such calls, interleaved in any
way, and shows that they are a run of the protocol. `protocol.rs` shows that the lock stays sound
through every run: the word counts the readers and flags the writer, and a writer inside is alone.
Whoever asks the cell from its place finds nobody there who would be in its way, so the cell has no
cause to refuse. `progress.rs` shows that a writer with the flag up gets in once the readers that were
there have left, however many more arrive.

The protocol also has a value, which the writer inside sets and which readers are shown when they come
in. It is what was last written, and it stands still while a reader is inside. That is shown of the
protocol; that a guard of a lock shows the value of the protocol rests on `std::sync::RwLock`.

Every wait looks at the word at most 2^64 - 1 times, because a loop with no bound cannot be shown to
end. After that `read` and `write` return `None`. They also return `None` where the `RwLock` refuses,
which for a reader means that it counts as many readers as it can, about 2^30 on Linux. Its guards
cannot be sent to another thread, so neither can those of the locks.
