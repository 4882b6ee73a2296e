//! What a call does to the word of a lock, written down operation by operation.
//!
//! Every atomic operation on a word is noted in the log of the call that makes it. The contracts of
//! the locks speak of that log: which operations it holds, in which order, how often, and that it
//! holds no others.

use crate::bits::flagged;
use crate::bits::law_flag_is_bit_zero;
use crate::bits::lowered;
use crate::bits::raised;
use crate::bits::readers_in;
use crate::bits::verdict_on;
use crate::bits::with_reader;
use crate::bits::Verdict;
use crate::bits::READER;
use crate::bits::WRITER;
use vstd::prelude::*;

verus! {

/// One atomic operation on a word, with its answer.
pub enum Op {
    /// A relaxed load gave this word.
    Peek(usize),
    /// An acquiring load gave this word.
    Look(usize),
    /// A compare exchange of the first word for the second gave this answer.
    Swap(usize, usize, Result<usize, usize>),
    /// A weak compare exchange of the first word for the second gave this answer.
    SwapWeak(usize, usize, Result<usize, usize>),
    /// An atomic or put the flag up and found this word.
    FlagUp(usize),
    /// An atomic and put the flag down and found this word.
    FlagDown(usize),
    /// A subtraction took one reader off and found this word.
    TakeOff(usize),
    /// A store set the whole word to zero.
    Clear,
}

/// Where the one who makes a call stands with the lock.
pub enum Stage {
    /// It holds nothing.
    Out,
    /// It counts as a reader.
    Reading,
    /// It owns the flag and waits for the readers to leave.
    Waiting,
    /// It owns the flag, and no reader is left.
    Inside,
    /// It has done what nobody in its place may do.
    Broken,
}

/// Where a successful exchange brings somebody who held nothing.
pub open spec fn entered(from: usize, to: usize) -> Stage {
    if with_reader(from) == Some(to) {
        Stage::Reading
    } else if !flagged(from) && to == raised(from) {
        if from == 0 {
            Stage::Inside
        } else {
            Stage::Waiting
        }
    } else {
        Stage::Broken
    }
}

/// Where an operation brings somebody who stands at `stage`.
pub open spec fn moved(stage: Stage, op: Op) -> Stage {
    match op {
        Op::Peek(_) => stage,
        Op::Look(bits) => if stage is Waiting && bits == WRITER {
            Stage::Inside
        } else {
            stage
        },
        Op::Swap(from, to, answer) | Op::SwapWeak(from, to, answer) => if answer is Err {
            stage
        } else if stage is Out {
            entered(from, to)
        } else {
            Stage::Broken
        },
        Op::FlagUp(before) => if stage is Out {
            if flagged(before) {
                Stage::Out
            } else {
                entered(before, raised(before))
            }
        } else {
            Stage::Broken
        },
        Op::FlagDown(_) => if stage is Waiting {
            Stage::Out
        } else {
            Stage::Broken
        },
        Op::TakeOff(_) => if stage is Reading {
            Stage::Out
        } else {
            Stage::Broken
        },
        Op::Clear => if stage is Inside {
            Stage::Out
        } else {
            Stage::Broken
        },
    }
}

/// Where somebody stands who has made these operations.
pub open spec fn stage_of(ops: Seq<Op>) -> Stage
    decreases ops.len(),
{
    if ops.len() == 0 {
        Stage::Out
    } else {
        moved(stage_of(ops.drop_last()), ops.last())
    }
}

/// Whether an operation writes to the word.
pub open spec fn writes(op: Op) -> bool {
    match op {
        Op::Peek(_) | Op::Look(_) => false,
        Op::Swap(_, _, answer) | Op::SwapWeak(_, _, answer) => answer is Ok,
        _ => true,
    }
}

/// How many of the operations write to the word.
pub open spec fn changes(ops: Seq<Op>) -> nat
    decreases ops.len(),
{
    if ops.len() == 0 {
        0
    } else {
        changes(ops.drop_last()) + if writes(ops.last()) {
            1nat
        } else {
            0nat
        }
    }
}

/// How many of the operations are relaxed loads.
pub open spec fn peeks(ops: Seq<Op>) -> nat
    decreases ops.len(),
{
    if ops.len() == 0 {
        0
    } else {
        peeks(ops.drop_last()) + if ops.last() is Peek {
            1nat
        } else {
            0nat
        }
    }
}

/// How many of the operations are acquiring loads.
pub open spec fn looks(ops: Seq<Op>) -> nat
    decreases ops.len(),
{
    if ops.len() == 0 {
        0
    } else {
        looks(ops.drop_last()) + if ops.last() is Look {
            1nat
        } else {
            0nat
        }
    }
}

/// One more operation moves the stage by that operation.
pub broadcast proof fn lemma_stage_after_one_more(ops: Seq<Op>, op: Op)
    ensures
        #[trigger] stage_of(ops.push(op)) == moved(stage_of(ops), op),
{
    assert(ops.push(op).drop_last() =~= ops);
}

/// One more operation adds itself to the changes.
pub broadcast proof fn lemma_changes_after_one_more(ops: Seq<Op>, op: Op)
    ensures
        #[trigger] changes(ops.push(op)) == changes(ops) + if writes(op) {
            1nat
        } else {
            0nat
        },
{
    assert(ops.push(op).drop_last() =~= ops);
}

/// One more operation adds itself to the relaxed loads.
pub broadcast proof fn lemma_peeks_after_one_more(ops: Seq<Op>, op: Op)
    ensures
        #[trigger] peeks(ops.push(op)) == peeks(ops) + if op is Peek {
            1nat
        } else {
            0nat
        },
{
    assert(ops.push(op).drop_last() =~= ops);
}

/// One more operation adds itself to the acquiring loads.
pub broadcast proof fn lemma_looks_after_one_more(ops: Seq<Op>, op: Op)
    ensures
        #[trigger] looks(ops.push(op)) == looks(ops) + if op is Look {
            1nat
        } else {
            0nat
        },
{
    assert(ops.push(op).drop_last() =~= ops);
}

/// What one more operation does to the stage and to the counts.
pub broadcast group group_one_more {
    lemma_stage_after_one_more,
    lemma_changes_after_one_more,
    lemma_peeks_after_one_more,
    lemma_looks_after_one_more,
}

/// What the operation leaves the word at, if it finds it at `bits`.
pub open spec fn written(op: Op, bits: usize) -> usize {
    match op {
        Op::Peek(_) | Op::Look(_) => bits,
        Op::Swap(_, to, answer) | Op::SwapWeak(_, to, answer) => if answer is Ok {
            to
        } else {
            bits
        },
        Op::FlagUp(_) => raised(bits),
        Op::FlagDown(_) => lowered(bits),
        Op::TakeOff(_) => if bits >= READER {
            (bits - READER) as usize
        } else {
            (bits + usize::MAX - 1) as usize
        },
        Op::Clear => 0,
    }
}

/// Whether the answer is one that the operation can give if it finds the word at `bits`. A relaxed
/// load may give a word that is long past, and a weak exchange may fail for no reason.
pub open spec fn answers(op: Op, bits: usize) -> bool {
    match op {
        Op::Peek(_) => true,
        Op::Look(seen) => seen == bits,
        Op::Swap(from, _, answer) => match answer {
            Ok(found) => found == from && from == bits,
            Err(found) => found == bits && bits != from,
        },
        Op::SwapWeak(from, _, answer) => match answer {
            Ok(found) => found == from && from == bits,
            Err(_) => true,
        },
        Op::FlagUp(before) => before == bits,
        Op::FlagDown(before) => before == bits,
        Op::TakeOff(before) => before == bits,
        Op::Clear => true,
    }
}

/// The operations are what their names say, as numbers: what each leaves the word at, and which answers
/// it can give on a word that it finds at `bits`.
pub proof fn law_operations_by_number(bits: usize, from: usize, to: usize, seen: usize)
    ensures
        written(Op::Peek(seen), bits) == bits,
        written(Op::Look(seen), bits) == bits,
        written(Op::Swap(from, to, Ok(seen)), bits) == to,
        written(Op::SwapWeak(from, to, Ok(seen)), bits) == to,
        written(Op::Swap(from, to, Err(seen)), bits) == bits,
        written(Op::SwapWeak(from, to, Err(seen)), bits) == bits,
        written(Op::FlagUp(seen), bits) == bits | 1,
        written(Op::FlagDown(seen), bits) == bits & !1,
        bits >= 2 ==> written(Op::TakeOff(seen), bits) == bits - 2,
        bits < 2 ==> written(Op::TakeOff(seen), bits) == usize::MAX - 1 + bits,
        written(Op::Clear, bits) == 0,
        answers(Op::Peek(seen), bits),
        answers(Op::Look(seen), bits) <==> seen == bits,
        answers(Op::Swap(from, to, Ok(seen)), bits) <==> from == bits && seen == bits,
        answers(Op::Swap(from, to, Err(seen)), bits) <==> from != bits && seen == bits,
        answers(Op::SwapWeak(from, to, Ok(seen)), bits) <==> from == bits && seen == bits,
        answers(Op::SwapWeak(from, to, Err(seen)), bits),
        answers(Op::FlagUp(seen), bits) <==> seen == bits,
        answers(Op::FlagDown(seen), bits) <==> seen == bits,
        answers(Op::TakeOff(seen), bits) <==> seen == bits,
        answers(Op::Clear, bits),
{
    law_flag_is_bit_zero(bits);
}

/// Whoever comes to hold a place gets it by one exchange or one atomic or, and gives it back by the one
/// operation that undoes it: a reader adds two to an even word and takes two off, a writer puts one on
/// an even word, and is inside if the word was zero or once it has seen the word at one.
pub proof fn law_stages_by_number(op: Op, from: usize, to: usize, seen: usize)
    ensures
        moved(Stage::Out, Op::Swap(from, to, Ok(seen))) is Reading <==> from % 2 == 0 && to == from + 2,
        moved(Stage::Out, Op::SwapWeak(from, to, Ok(seen))) is Reading <==> from % 2 == 0 && to == from
            + 2,
        moved(Stage::Out, Op::Swap(from, to, Ok(seen))) is Waiting <==> from % 2 == 0 && from > 0 && to
            == from + 1,
        moved(Stage::Out, Op::SwapWeak(from, to, Ok(seen))) is Waiting <==> from % 2 == 0 && from > 0
            && to == from + 1,
        moved(Stage::Out, Op::Swap(from, to, Ok(seen))) is Inside <==> from == 0 && to == 1,
        moved(Stage::Out, Op::SwapWeak(from, to, Ok(seen))) is Inside <==> from == 0 && to == 1,
        moved(Stage::Out, Op::FlagUp(seen)) is Inside <==> seen == 0,
        moved(Stage::Out, Op::FlagUp(seen)) is Waiting <==> seen % 2 == 0 && seen > 0,
        moved(Stage::Out, Op::FlagUp(seen)) is Out <==> seen % 2 == 1,
        moved(Stage::Waiting, Op::Look(seen)) is Inside <==> seen == 1,
        moved(Stage::Waiting, Op::FlagDown(seen)) is Out,
        moved(Stage::Reading, Op::TakeOff(seen)) is Out,
        moved(Stage::Inside, Op::Clear) is Out,
        !(op is TakeOff) ==> !(moved(Stage::Reading, op) is Out),
        !(op is Clear) ==> !(moved(Stage::Inside, op) is Out),
        !(op is FlagDown) ==> !(moved(Stage::Waiting, op) is Out),
        !(moved(Stage::Broken, op) is Reading) && !(moved(Stage::Broken, op) is Inside),
{
}

/// Every operation but a load, and an exchange that fails, counts as a change.
pub proof fn law_changes_by_number(ops: Seq<Op>)
    ensures
        ops.len() == 0 ==> stage_of(ops) is Out && changes(ops) == 0 && peeks(ops) == 0 && looks(ops)
            == 0,
        ops.len() > 0 ==> stage_of(ops) == moved(stage_of(ops.drop_last()), ops.last()),
        ops.len() > 0 ==> changes(ops) == changes(ops.drop_last()) + match ops.last() {
            Op::Peek(_) | Op::Look(_) | Op::Swap(_, _, Err(_)) | Op::SwapWeak(_, _, Err(_)) => 0nat,
            _ => 1nat,
        },
        peeks(ops) + looks(ops) <= ops.len(),
    decreases ops.len(),
{
    if ops.len() > 0 {
        law_changes_by_number(ops.drop_last());
    }
}

/// Giving up takes as long as it was to take: whoever gives up after `n` rounds has made at least `n`
/// operations, all of them in vain.
pub proof fn law_giving_up_takes_its_rounds(ops: Seq<Op>, n: nat)
    ensures
        turned_away_each_time(ops, n) ==> ops.len() >= n && changes(ops) == 0,
        gave_up(ops, n) ==> ops.len() >= n && (changes(ops) == 0 || changes(ops) == 2),
        waited_in_vain(ops, n) ==> ops.len() == n + 2,
{
    law_changes_by_number(ops);
}

/// A reader came in with one try: it found a word with room and no flag, and exchanged it for the
/// same word with one more reader.
pub open spec fn came_in(ops: Seq<Op>) -> bool {
    &&& ops.len() == 2
    &&& ops[0] matches Op::Peek(bits)
    &&& with_reader(bits) matches Some(to)
    &&& ops[1] == Op::Swap(bits, to, Ok(bits))
}

/// A reader was turned away at its one try: it found the flag up or the count full and did nothing
/// more, or the word had changed when it tried the exchange.
pub open spec fn turned_away(ops: Seq<Op>) -> bool {
    &&& ops.len() > 0
    &&& ops[0] matches Op::Peek(bits)
    &&& match with_reader(bits) {
        None => ops.len() == 1,
        Some(to) => ops.len() == 2 && (ops[1] matches Op::Swap(from, new, Err(found)) && from
            == bits && new == to && found != bits),
    }
}

/// The operation at `i` is part of a reader's try: a look at the word, which is followed at once by
/// an exchange if it found room and no flag, or that exchange, for the same word with one more
/// reader.
pub open spec fn reader_try_at(ops: Seq<Op>, i: int) -> bool {
    match ops[i] {
        Op::Peek(bits) => with_reader(bits) matches Some(to) ==> i + 1 < ops.len() && (ops[i
            + 1] matches Op::SwapWeak(from, new, _) && from == bits && new == to),
        Op::SwapWeak(from, new, _) => i > 0 && ops[i - 1] == Op::Peek(from) && with_reader(from)
            == Some(new),
        _ => false,
    }
}

/// The operations are a reader's tries, one after the other, and nothing else.
pub open spec fn reader_tries(ops: Seq<Op>) -> bool {
    forall|i: int| 0 <= i < ops.len() ==> #[trigger] reader_try_at(ops, i)
}

/// A reader came in after any number of tries: only the last one went through.
pub open spec fn came_in_at_last(ops: Seq<Op>) -> bool {
    &&& reader_tries(ops)
    &&& stage_of(ops) is Reading
    &&& changes(ops) == 1
    &&& ops.len() > 0 && writes(ops.last())
}

/// A reader was turned away `tries` times, and tried no more.
pub open spec fn turned_away_each_time(ops: Seq<Op>, tries: nat) -> bool {
    &&& reader_tries(ops)
    &&& stage_of(ops) is Out
    &&& changes(ops) == 0
    &&& peeks(ops) == tries
}

/// A writer exchanged a free word for the bare flag.
pub open spec fn took_free(ops: Seq<Op>) -> bool {
    ops == seq![Op::Swap(0, WRITER, Ok(0))]
}

/// A writer tried to exchange a free word for the bare flag, and found the word not free.
pub open spec fn found_busy(ops: Seq<Op>) -> bool {
    &&& ops.len() == 1
    &&& ops[0] matches Op::Swap(from, to, Err(found)) && from == 0 && to == WRITER && found != 0
}

/// A writer owns the flag and is alone. It claimed the flag once, did nothing else to the word, and
/// if there were readers when it did, it has seen the bare flag since.
pub open spec fn got_in(ops: Seq<Op>) -> bool {
    &&& stage_of(ops) is Inside
    &&& changes(ops) == 1
}

/// After this operation a writer has not got the flag: it found it up, or its exchange failed.
pub open spec fn missed_flag(op: Op) -> bool {
    match op {
        Op::Peek(bits) => flagged(bits),
        Op::SwapWeak(_, _, answer) => answer is Err,
        _ => false,
    }
}

/// After this operation a writer has the flag and has to wait: it claimed it with readers inside, or
/// it has looked and they are still there.
pub open spec fn has_to_wait(op: Op) -> bool {
    match op {
        Op::SwapWeak(from, _, answer) => answer is Ok && from != 0,
        Op::Look(bits) => bits != WRITER,
        _ => false,
    }
}

/// The operation at `i` is part of a writer's tries. It is the exchange of a free word for the flag,
/// with which they may open. It is a look at the word while the flag is not won, which is followed at
/// once by an exchange if it found the flag down, or that exchange, for the same word with the flag
/// up. Or it is a look for readers, or putting the flag down, while there is reason to wait.
pub open spec fn writer_try_at(ops: Seq<Op>, i: int) -> bool {
    match ops[i] {
        Op::Peek(bits) => (i > 0 ==> missed_flag(ops[i - 1])) && (!flagged(bits) ==> i + 1
            < ops.len() && (ops[i + 1] matches Op::SwapWeak(from, to, _) && from == bits && to
            == raised(bits))),
        Op::SwapWeak(from, to, _) => if i == 0 {
            from == 0 && to == WRITER
        } else {
            ops[i - 1] == Op::Peek(from) && !flagged(from) && to == raised(from)
        },
        Op::Look(_) | Op::FlagDown(_) => i > 0 && has_to_wait(ops[i - 1]),
        _ => false,
    }
}

/// The operations are a writer's tries for the flag, and its wait for the readers once it has it, and
/// nothing else.
pub open spec fn writer_tries(ops: Seq<Op>) -> bool {
    forall|i: int| 0 <= i < ops.len() ==> #[trigger] writer_try_at(ops, i)
}

/// A writer gave up: it never got the flag in `rounds` tries, or it got it, saw readers `rounds`
/// times, and put the flag down again. It did nothing else to the word.
pub open spec fn gave_up(ops: Seq<Op>, rounds: nat) -> bool {
    &&& stage_of(ops) is Out
    &&& writer_tries(ops)
    &&& {
        ||| changes(ops) == 0 && peeks(ops) == rounds
        ||| changes(ops) == 2 && ops.last() is FlagDown && looks(ops) == rounds
    }
}

/// The only writer put its flag up where nobody was.
pub open spec fn took_free_alone(ops: Seq<Op>) -> bool {
    ops == seq![Op::FlagUp(0)]
}

/// A writer put the flag up, found that it was up before, and did nothing more.
pub open spec fn was_second(ops: Seq<Op>) -> bool {
    &&& ops.len() == 1
    &&& ops[0] matches Op::FlagUp(before) && verdict_on(before) == Verdict::SecondWriter
}

/// The only writer put its flag up, met readers, and put it down again at once.
pub open spec fn stepped_back(ops: Seq<Op>) -> bool {
    &&& ops.len() == 2
    &&& ops[0] matches Op::FlagUp(before) && verdict_on(before) == Verdict::ReadersInside
    &&& ops[1] is FlagDown
}

/// The only writer put its flag up, saw readers `rounds` times, and put it down again.
pub open spec fn waited_in_vain(ops: Seq<Op>, rounds: nat) -> bool {
    &&& ops.len() == rounds + 2
    &&& ops[0] matches Op::FlagUp(before) && verdict_on(before) == Verdict::ReadersInside
    &&& forall|i: int|
        #![trigger ops[i]]
        0 < i < ops.len() - 1 ==> (ops[i] matches Op::Look(bits) && bits != WRITER)
    &&& ops.last() is FlagDown
}

/// The only writer put its flag up where nobody was, or it put it up, saw readers, and then saw the
/// bare flag, within `rounds` looks.
pub open spec fn got_in_alone(ops: Seq<Op>, rounds: nat) -> bool {
    &&& 0 < ops.len() <= rounds + 1
    &&& ops[0] matches Op::FlagUp(before) && match verdict_on(before) {
        Verdict::SecondWriter => false,
        Verdict::Inside => ops.len() == 1,
        Verdict::ReadersInside => ops.last() == Op::Look(WRITER),
    }
    &&& forall|i: int|
        #![trigger ops[i]]
        0 < i < ops.len() - 1 ==> (ops[i] matches Op::Look(bits) && bits != WRITER)
}

/// The operations since `before` are acquiring loads and nothing else.
pub open spec fn only_looked(before: Seq<Op>, ops: Seq<Op>) -> bool {
    &&& before.len() <= ops.len()
    &&& ops.subrange(0, before.len() as int) == before
    &&& forall|i: int| #![trigger ops[i]] before.len() <= i < ops.len() ==> ops[i] is Look
}

/// A reader that finds the flag up or the count full has tried once more.
pub proof fn lemma_reader_kept_out(ops: Seq<Op>, bits: usize)
    requires
        reader_tries(ops),
        with_reader(bits) is None,
    ensures
        reader_tries(ops.push(Op::Peek(bits))),
{
    let new = ops.push(Op::Peek(bits));
    assert forall|i: int| 0 <= i < new.len() implies #[trigger] reader_try_at(new, i) by {
        if i < ops.len() {
            assert(reader_try_at(ops, i));
        }
    }
}

/// A reader that finds room and makes the exchange has tried once more.
pub proof fn lemma_reader_tried(
    ops: Seq<Op>,
    bits: usize,
    to: usize,
    answer: Result<usize, usize>,
)
    requires
        reader_tries(ops),
        with_reader(bits) == Some(to),
    ensures
        reader_tries(ops.push(Op::Peek(bits)).push(Op::SwapWeak(bits, to, answer))),
{
    let new = ops.push(Op::Peek(bits)).push(Op::SwapWeak(bits, to, answer));
    assert forall|i: int| 0 <= i < new.len() implies #[trigger] reader_try_at(new, i) by {
        if i < ops.len() {
            assert(reader_try_at(ops, i));
        }
    }
}

/// A writer that has not won the flag, looks, and finds it up, has tried once more.
pub proof fn lemma_writer_kept_out(ops: Seq<Op>, bits: usize)
    requires
        writer_tries(ops),
        ops.len() > 0 ==> missed_flag(ops.last()),
        flagged(bits),
    ensures
        writer_tries(ops.push(Op::Peek(bits))),
{
    let new = ops.push(Op::Peek(bits));
    assert forall|i: int| 0 <= i < new.len() implies #[trigger] writer_try_at(new, i) by {
        if i < ops.len() {
            assert(writer_try_at(ops, i));
        }
    }
}

/// A writer that has not won the flag, finds it down and makes the exchange, has tried once more.
pub proof fn lemma_writer_tried(ops: Seq<Op>, bits: usize, answer: Result<usize, usize>)
    requires
        writer_tries(ops),
        ops.len() > 0 ==> missed_flag(ops.last()),
        !flagged(bits),
    ensures
        writer_tries(ops.push(Op::Peek(bits)).push(Op::SwapWeak(bits, raised(bits), answer))),
{
    let new = ops.push(Op::Peek(bits)).push(Op::SwapWeak(bits, raised(bits), answer));
    assert forall|i: int| 0 <= i < new.len() implies #[trigger] writer_try_at(new, i) by {
        if i < ops.len() {
            assert(writer_try_at(ops, i));
        }
    }
}

/// A writer that has to wait may look for readers, and may put the flag down.
pub proof fn lemma_writer_waited(ops: Seq<Op>, op: Op)
    requires
        writer_tries(ops),
        ops.len() > 0 && has_to_wait(ops.last()),
        op is Look || op is FlagDown,
    ensures
        writer_tries(ops.push(op)),
{
    let new = ops.push(op);
    assert forall|i: int| 0 <= i < new.len() implies #[trigger] writer_try_at(new, i) by {
        if i < ops.len() {
            assert(writer_try_at(ops, i));
        }
    }
}

/// Somebody who has done what nobody in its place may do has done it for good.
pub proof fn lemma_broken_for_good(ops: Seq<Op>, n: int)
    requires
        0 <= n <= ops.len(),
        stage_of(ops.subrange(0, n)) is Broken,
    ensures
        stage_of(ops) is Broken,
    decreases ops.len() - n,
{
    if n == ops.len() {
        assert(ops.subrange(0, n) =~= ops);
    } else {
        let more = ops.subrange(0, n + 1);
        assert(more.drop_last() =~= ops.subrange(0, n));
        lemma_broken_for_good(ops, n + 1);
    }
}

/// Every kind of call leaves the one who makes it where its name says, and the kinds that fail
/// without having touched the word have written nothing.
pub proof fn law_tries_stand_where_they_say(ops: Seq<Op>, n: nat)
    ensures
        came_in(ops) ==> stage_of(ops) is Reading && changes(ops) == 1,
        turned_away(ops) ==> stage_of(ops) is Out && changes(ops) == 0,
        came_in_at_last(ops) ==> stage_of(ops) is Reading,
        turned_away_each_time(ops, n) ==> stage_of(ops) is Out && changes(ops) == 0,
        took_free(ops) ==> got_in(ops),
        found_busy(ops) ==> stage_of(ops) is Out && changes(ops) == 0,
        got_in(ops) ==> stage_of(ops) is Inside,
        gave_up(ops, n) ==> stage_of(ops) is Out,
        took_free_alone(ops) ==> got_in(ops),
        was_second(ops) ==> stage_of(ops) is Out,
        stepped_back(ops) ==> stage_of(ops) is Out,
        waited_in_vain(ops, n) ==> stage_of(ops) is Out,
{
    reveal_with_fuel(stage_of, 3);
    reveal_with_fuel(changes, 3);
    if ops.len() == 1 {
        assert(ops.drop_last() =~= Seq::empty());
        assert(ops.last() == ops[0]);
    }
    if ops.len() == 2 {
        assert(ops.drop_last().drop_last() =~= Seq::empty());
        assert(ops.drop_last().last() == ops[0]);
        assert(ops.last() == ops[1]);
    }
    if waited_in_vain(ops, n) {
        lemma_waits_in_vain(ops, ops.len() as int - 1);
    }
}

/// Up to the last operation, a writer that waits in vain is waiting.
proof fn lemma_waits_in_vain(ops: Seq<Op>, n: int)
    requires
        1 <= n < ops.len(),
        ops[0] matches Op::FlagUp(before) && !flagged(before) && before != 0,
        forall|i: int|
            #![trigger ops[i]]
            0 < i < ops.len() - 1 ==> (ops[i] matches Op::Look(seen) && seen != WRITER),
    ensures
        stage_of(ops.subrange(0, n)) is Waiting,
        n == ops.len() - 1 ==> ops.subrange(0, n) == ops.drop_last(),
    decreases n,
{
    let part = ops.subrange(0, n);
    assert(part.last() == ops[n - 1]);
    if n == 1 {
        assert(part.drop_last() =~= Seq::empty());
    } else {
        assert(part.drop_last() =~= ops.subrange(0, n - 1));
        lemma_waits_in_vain(ops, n - 1);
    }
    if n == ops.len() - 1 {
        assert(part =~= ops.drop_last());
    }
}

/// A reader that leaves, and a writer that leaves, hold nothing any more.
pub proof fn law_leaving_ends_a_visit(ops: Seq<Op>, before: usize)
    ensures
        stage_of(ops) is Reading ==> stage_of(ops.push(Op::TakeOff(before))) is Out,
        stage_of(ops) is Inside ==> stage_of(ops.push(Op::Clear)) is Out,
{
    broadcast use group_one_more;

}

} // verus!
