//! What the single number behind a lock means, and the decisions taken on it.
//!
//! Bit 0 is the writer flag. Everything above it counts the readers inside, so one reader is worth
//! two.

use vstd::prelude::*;

verus! {

/// Lowest bit of the word: a writer is inside, or waiting for the readers to leave.
pub const WRITER: usize = 1;

/// What one reader adds to the word.
pub const READER: usize = 2;

/// Whether the writer flag is up.
pub open spec fn flagged(bits: usize) -> bool {
    bits % 2 == 1
}

/// How many readers the word counts.
pub open spec fn readers_in(bits: usize) -> nat {
    (bits / 2) as nat
}

/// The number that stands for a flag and a count of readers.
pub open spec fn packed(writer: bool, readers: nat) -> int {
    2 * readers + if writer {
        1int
    } else {
        0int
    }
}

/// Whether one more reader can be counted in a machine word.
pub open spec fn has_room(bits: usize) -> bool {
    bits + READER <= usize::MAX
}

/// The word with one more reader, or `None` where no reader may come in.
pub open spec fn with_reader(bits: usize) -> Option<usize> {
    if flagged(bits) || !has_room(bits) {
        None
    } else {
        Some((bits + READER) as usize)
    }
}

/// The word with one reader less.
pub open spec fn without_reader(bits: usize) -> usize
    recommends
        bits >= READER,
{
    (bits - READER) as usize
}

/// The word with the flag up.
pub open spec fn raised(bits: usize) -> usize {
    if flagged(bits) {
        bits
    } else {
        (bits + 1) as usize
    }
}

/// The word with the flag down.
pub open spec fn lowered(bits: usize) -> usize {
    if flagged(bits) {
        (bits - 1) as usize
    } else {
        bits
    }
}

/// What a writer that has raised the flag is to do, given the word it found.
#[derive(Clone, Copy, Debug, PartialEq, Eq, Structural)]
pub enum Verdict {
    /// The flag was up before: another writer owns it.
    SecondWriter,
    /// Nobody was there: the writer is in.
    Inside,
    /// The flag is this writer's, but readers are still inside.
    ReadersInside,
}

/// The verdict on a word that a writer found before it raised the flag.
pub open spec fn verdict_on(before: usize) -> Verdict {
    if flagged(before) {
        Verdict::SecondWriter
    } else if before == 0 {
        Verdict::Inside
    } else {
        Verdict::ReadersInside
    }
}

/// Whether the writer flag is up in `bits`.
pub fn has_writer(bits: usize) -> (r: bool)
    ensures
        r == flagged(bits),
        r == (bits % 2 == 1),
    opens_invariants none
    no_unwind
{
    assert(bits & 1usize == bits % 2) by (bit_vector);
    bits & WRITER != 0
}

/// How many readers `bits` counts.
pub fn count_readers(bits: usize) -> (r: usize)
    ensures
        r == readers_in(bits),
        r == bits / 2,
    opens_invariants none
    no_unwind
{
    bits / READER
}

/// The word that lets one more reader in, or `None` where the flag is up or the count is full.
pub fn admit_reader(bits: usize) -> (r: Option<usize>)
    ensures
        r == with_reader(bits),
        r == if bits % 2 == 0 && bits + 2 <= usize::MAX {
            Some((bits + 2) as usize)
        } else {
            None
        },
    opens_invariants none
    no_unwind
{
    if has_writer(bits) || bits > usize::MAX - READER {
        None
    } else {
        Some(bits + READER)
    }
}

/// The word with the writer flag up and the count of readers untouched.
pub fn raise_flag(bits: usize) -> (r: usize)
    ensures
        r == raised(bits),
        r == bits | 1,
        r == bits + 1 - bits % 2,
    opens_invariants none
    no_unwind
{
    assert(bits | 1usize == if bits % 2 == 1 {
        bits as int
    } else {
        bits + 1
    }) by (bit_vector);
    bits | WRITER
}

/// What a writer is to do when it found `before` and raised the flag.
pub fn judge(before: usize) -> (r: Verdict)
    ensures
        r == verdict_on(before),
        r == Verdict::SecondWriter <==> before % 2 == 1,
        r == Verdict::Inside <==> before == 0,
    opens_invariants none
    no_unwind
{
    if has_writer(before) {
        Verdict::SecondWriter
    } else if before == 0 {
        Verdict::Inside
    } else {
        Verdict::ReadersInside
    }
}

/// Whether a word seen by the writer that owns the flag says that every reader has left.
pub fn is_drained(bits: usize) -> (r: bool)
    ensures
        r == (flagged(bits) && readers_in(bits) == 0),
        r == (bits == 1),
    opens_invariants none
    no_unwind
{
    bits == WRITER
}

/// A word is determined by its flag and its count: packing gives back what was unpacked. The word is
/// twice the number of readers, and one more where the flag is up.
pub proof fn law_word_is_flag_and_count(bits: usize)
    ensures
        packed(flagged(bits), readers_in(bits)) == bits,
        bits == 2 * readers_in(bits) + if flagged(bits) {
            1int
        } else {
            0int
        },
        WRITER == 1,
        READER == 2,
{
}

/// Every flag and count that fit in a word can be read back from it.
pub proof fn law_flag_and_count_read_back(bits: usize, writer: bool, readers: nat)
    requires
        bits == packed(writer, readers),
    ensures
        flagged(bits) == writer,
        readers_in(bits) == readers,
{
}

/// Raising the flag leaves the count alone, and lowering a flag that was down before undoes it.
pub proof fn law_raise_then_lower(bits: usize)
    ensures
        flagged(raised(bits)),
        readers_in(raised(bits)) == readers_in(bits),
        !flagged(lowered(bits)),
        readers_in(lowered(bits)) == readers_in(bits),
        !flagged(bits) ==> lowered(raised(bits)) == bits,
        raised(bits) == bits + 1 - bits % 2,
        lowered(bits) == bits - bits % 2,
{
}

/// Raising and lowering the flag are the bitwise operations on bit 0.
pub proof fn law_flag_is_bit_zero(bits: usize)
    ensures
        raised(bits) == bits | WRITER,
        lowered(bits) == bits & !WRITER,
        flagged(bits) <==> bits & WRITER != 0,
        raised(bits) == bits | 1,
        lowered(bits) == bits & !1,
        flagged(bits) <==> bits & 1 == 1,
{
    assert(bits & 1usize == bits % 2) by (bit_vector);
    assert(bits | 1usize == if bits % 2 == 1 {
        bits as int
    } else {
        bits + 1
    }) by (bit_vector);
    assert(bits & !1usize == if bits % 2 == 1 {
        bits - 1
    } else {
        bits as int
    }) by (bit_vector);
}

/// A second writer that raises a flag which is already up changes nothing.
pub proof fn law_raise_twice(bits: usize)
    ensures
        raised(raised(bits)) == raised(bits),
        flagged(bits) ==> raised(bits) == bits,
{
}

/// A reader that comes in and leaves puts the word back, and counts as exactly one in between.
pub proof fn law_reader_in_then_out(bits: usize)
    requires
        with_reader(bits) is Some,
    ensures
        readers_in(with_reader(bits)->0) == readers_in(bits) + 1,
        !flagged(with_reader(bits)->0),
        without_reader(with_reader(bits)->0) == bits,
        with_reader(bits)->0 == bits + 2,
{
}

/// A reader is kept out by the flag or by a full count, never by the other readers. Where `n` readers
/// are inside and the flag is down, one more comes in if the number that counts `n + 1` of them fits in
/// a word, and that number is the word then. Where the flag is up nobody comes in.
pub proof fn law_readers_never_wait_on_readers(bits: usize)
    ensures
        with_reader(bits) is Some <==> !flagged(bits) && has_room(bits),
        forall|n: nat|
            bits == #[trigger] (2 * n) && 2 * (n + 1) <= usize::MAX ==> with_reader(bits) == Some(
                (2 * (n + 1)) as usize,
            ),
        forall|n: nat|
            bits == #[trigger] (2 * n) && 2 * (n + 1) > usize::MAX ==> with_reader(bits) is None,
        bits % 2 == 1 ==> with_reader(bits) is None,
{
}

/// A writer that puts the flag up is the second exactly if the word it found was odd, is in exactly if
/// it was zero, and has to wait exactly if it was any other even number.
pub proof fn law_verdict_goes_by_the_number(before: usize)
    ensures
        verdict_on(before) == Verdict::SecondWriter <==> before % 2 == 1,
        verdict_on(before) == Verdict::Inside <==> before == 0,
        verdict_on(before) == Verdict::ReadersInside <==> before % 2 == 0 && before > 0,
{
}

/// Clearing the whole word when the last reader has left is the same as lowering the flag.
pub proof fn law_clearing_is_lowering(bits: usize)
    requires
        flagged(bits),
        readers_in(bits) == 0,
    ensures
        bits == WRITER,
        lowered(bits) == 0,
{
}

} // verus!
