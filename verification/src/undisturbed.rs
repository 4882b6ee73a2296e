//! What a call comes to if nobody else touches the lock meanwhile.

use crate::bits::flagged;
use crate::bits::raised;
use crate::bits::readers_in;
use crate::bits::with_reader;
use crate::bits::WRITER;
use crate::trace::answers;
use crate::trace::came_in;
use crate::trace::came_in_at_last;
use crate::trace::changes;
use crate::trace::found_busy;
use crate::trace::gave_up;
use crate::trace::got_in;
use crate::trace::got_in_alone;
use crate::trace::law_tries_stand_where_they_say;
use crate::trace::peeks;
use crate::trace::reader_tries;
use crate::trace::reader_try_at;
use crate::trace::stage_of;
use crate::trace::stepped_back;
use crate::trace::took_free;
use crate::trace::took_free_alone;
use crate::trace::turned_away;
use crate::trace::turned_away_each_time;
use crate::trace::waited_in_vain;
use crate::trace::was_second;
use crate::trace::writer_try_at;
use crate::trace::writes;
use crate::trace::written;
use crate::trace::Op;
use crate::trace::Stage;
use vstd::prelude::*;

verus! {

/// The word after these operations, if it was `bits` before and nobody else writes to it.
pub open spec fn left_at(bits: usize, ops: Seq<Op>) -> usize
    decreases ops.len(),
{
    if ops.len() == 0 {
        bits
    } else {
        written(ops.last(), left_at(bits, ops.drop_last()))
    }
}

/// Whether these operations, on a word that was `bits` before, can have had these answers with
/// nobody else on the word. A relaxed load gives the word as it is then.
pub open spec fn alone(bits: usize, ops: Seq<Op>) -> bool
    decreases ops.len(),
{
    ops.len() == 0 || {
        let now = left_at(bits, ops.drop_last());
        &&& alone(bits, ops.drop_last())
        &&& answers(ops.last(), now)
        &&& ops.last() matches Op::Peek(seen) ==> seen == now
    }
}

/// What it is to be undisturbed, operation by operation: each finds the word where the one before it left
/// it, and answers as it can on that word.
pub proof fn law_undisturbed_one_more(bits: usize, ops: Seq<Op>, op: Op)
    ensures
        alone(bits, Seq::empty()),
        left_at(bits, Seq::empty()) == bits,
        alone(bits, ops.push(op)) <==> alone(bits, ops) && match op {
            Op::Peek(seen) => seen == left_at(bits, ops),
            _ => answers(op, left_at(bits, ops)),
        },
        left_at(bits, ops.push(op)) == written(op, left_at(bits, ops)),
{
    assert(ops.push(op).drop_last() =~= ops);
}

/// A call that nobody disturbs changes the word by exactly what it holds when it is over: nothing
/// where it holds nothing, one reader where it reads, the flag where it waits, and the bare flag in
/// place of zero where it is inside.
pub proof fn law_undisturbed_call(bits: usize, ops: Seq<Op>)
    requires
        alone(bits, ops),
    ensures
        match stage_of(ops) {
            Stage::Out => left_at(bits, ops) == bits,
            Stage::Reading => with_reader(bits) == Some(left_at(bits, ops)),
            Stage::Waiting => !flagged(bits) && bits != 0 && left_at(bits, ops) == raised(bits),
            Stage::Inside => bits == 0 && left_at(bits, ops) == WRITER,
            Stage::Broken => true,
        },
        stage_of(ops) is Reading ==> bits % 2 == 0 && left_at(bits, ops) == bits + 2,
        stage_of(ops) is Waiting ==> bits % 2 == 0 && bits > 0 && left_at(bits, ops) == bits + 1,
        stage_of(ops) is Inside ==> bits == 0 && left_at(bits, ops) == 1,
    decreases ops.len(),
{
    if ops.len() > 0 {
        law_undisturbed_call(bits, ops.drop_last());
    }
}

/// A try for write access gets in exactly if nobody is on the lock. It leaves the bare flag if it
/// does, and the word as it was if it does not.
pub proof fn law_try_write_undisturbed(bits: usize, ops: Seq<Op>)
    requires
        alone(bits, ops),
        took_free(ops) || found_busy(ops),
    ensures
        took_free(ops) <==> bits == 0,
        took_free(ops) ==> left_at(bits, ops) == WRITER,
        took_free(ops) ==> left_at(bits, ops) == 1,
        took_free(ops) || found_busy(ops) ==> ops.len() == 1,
        found_busy(ops) ==> left_at(bits, ops) == bits,
{
    assert(ops.drop_last() =~= Seq::empty());
    assert(ops.last() == ops[0]);
}

/// A try for read access gets in exactly if the flag is down and the count has room. There is one
/// reader more if it does, and the word is as it was if it does not.
pub proof fn law_try_read_undisturbed(bits: usize, ops: Seq<Op>)
    requires
        alone(bits, ops),
        came_in(ops) || turned_away(ops),
    ensures
        came_in(ops) <==> with_reader(bits) is Some,
        came_in(ops) <==> bits % 2 == 0 && bits + 2 <= usize::MAX,
        came_in(ops) ==> left_at(bits, ops) == bits + 2,
        ops.len() <= 2,
        came_in(ops) ==> readers_in(left_at(bits, ops)) == readers_in(bits) + 1 && !flagged(
            left_at(bits, ops),
        ),
        turned_away(ops) ==> left_at(bits, ops) == bits,
{
    reveal_with_fuel(alone, 3);
    reveal_with_fuel(left_at, 3);
    let one = if ops.len() == 2 {
        ops.drop_last()
    } else {
        ops
    };
    assert(one.drop_last() =~= Seq::empty());
    assert(one.last() == ops[0]);
    if ops.len() == 2 {
        assert(ops.last() == ops[1]);
    }
}

/// A weak exchange found the word it expected, and failed all the same.
pub open spec fn failed_for_no_reason(op: Op, bits: usize) -> bool {
    op matches Op::SwapWeak(from, _, Err(_)) && from == bits
}

/// Operations that nobody disturbs and that write nothing all find the word as it was.
proof fn lemma_nothing_written(bits: usize, ops: Seq<Op>)
    requires
        alone(bits, ops),
        changes(ops) == 0,
    ensures
        left_at(bits, ops) == bits,
        forall|i: int|
            #![trigger ops[i]]
            0 <= i < ops.len() ==> !writes(ops[i]) && answers(ops[i], bits) && (
            ops[i] matches Op::Peek(seen) ==> seen == bits),
    decreases ops.len(),
{
    if ops.len() > 0 {
        let past = ops.drop_last();
        lemma_nothing_written(bits, past);
        assert forall|i: int| #![trigger ops[i]] 0 <= i < ops.len() implies !writes(ops[i])
            && answers(ops[i], bits) && (ops[i] matches Op::Peek(seen) ==> seen == bits) by {
            if i < past.len() {
                assert(ops[i] == past[i]);
            } else {
                assert(ops[i] == ops.last());
            }
        }
    }
}

/// Where there is room, every one of a reader's tries is a look and an exchange.
proof fn lemma_tries_with_room(bits: usize, ops: Seq<Op>)
    requires
        reader_tries(ops),
        with_reader(bits) is Some,
        forall|i: int|
            #![trigger ops[i]]
            0 <= i < ops.len() ==> (ops[i] matches Op::Peek(seen) ==> seen == bits),
    ensures
        ops.len() == 2 * peeks(ops),
    decreases ops.len(),
{
    if ops.len() > 0 {
        let last = ops.len() - 1;
        assert(reader_try_at(ops, last));
        assert(ops[last] is SwapWeak);
        assert(ops[last - 1] is Peek);
        let past = ops.drop_last().drop_last();
        assert(ops.last() == ops[last]);
        assert(ops.drop_last().last() == ops[last - 1]);
        assert forall|i: int| 0 <= i < past.len() implies #[trigger] reader_try_at(past, i) by {
            assert(reader_try_at(ops, i));
            assert(past[i] == ops[i]);
            if i > 0 {
                assert(past[i - 1] == ops[i - 1]);
            }
            if i + 1 < past.len() {
                assert(past[i + 1] == ops[i + 1]);
            }
        }
        assert forall|i: int| #![trigger past[i]] 0 <= i < past.len() implies (
        past[i] matches Op::Peek(seen) ==> seen == bits) by {
            assert(past[i] == ops[i]);
        }
        lemma_tries_with_room(bits, past);
        assert(peeks(ops) == peeks(ops.drop_last()));
        assert(peeks(ops.drop_last()) == peeks(past) + 1);
    }
}

/// Operations that are all relaxed loads are as many as they are.
proof fn lemma_only_peeks(ops: Seq<Op>)
    requires
        forall|i: int| #![trigger ops[i]] 0 <= i < ops.len() ==> ops[i] is Peek,
    ensures
        peeks(ops) == ops.len(),
    decreases ops.len(),
{
    if ops.len() > 0 {
        let past = ops.drop_last();
        assert(ops.last() == ops[ops.len() - 1]);
        assert forall|i: int| #![trigger past[i]] 0 <= i < past.len() implies past[i] is Peek by {
            assert(past[i] == ops[i]);
        }
        lemma_only_peeks(past);
    }
}

/// A reader that waits its turn, and gets in or gives up, leaves one reader more, or the word as it
/// was. It gets in only where the flag is down and the count has room.
///
/// Where that is so, it is never turned away but by exchanges that failed for no reason: each of its
/// tries made one, all but the last one failed so if it got in, and all of them if it gave up. Where
/// no exchange fails for no reason, its first try gets in. Where the flag is up or the count is full,
/// it only ever looks.
pub proof fn law_read_undisturbed(bits: usize, ops: Seq<Op>, tries: nat)
    requires
        alone(bits, ops),
        came_in_at_last(ops) || turned_away_each_time(ops, tries),
    ensures
        came_in_at_last(ops) ==> with_reader(bits) == Some(left_at(bits, ops)) && !flagged(bits)
            && readers_in(left_at(bits, ops)) == readers_in(bits) + 1 && !flagged(left_at(bits, ops)),
        came_in_at_last(ops) ==> bits % 2 == 0 && left_at(bits, ops) == bits + 2,
        bits % 2 == 0 && bits + 2 <= usize::MAX && ops.len() > 0 && (forall|i: int|
            #![trigger ops[i]]
            0 <= i < ops.len() ==> !(ops[i] matches Op::SwapWeak(from, _, Err(_)) && from == bits))
            ==> came_in_at_last(ops) && ops.len() == 2,
        bits % 2 == 1 || bits + 2 > usize::MAX ==> turned_away_each_time(ops, tries),
        turned_away_each_time(ops, tries) ==> left_at(bits, ops) == bits,
        came_in_at_last(ops) ==> forall|i: int|
            #![trigger ops[i]]
            0 <= i < ops.len() - 1 ==> ops[i] == Op::Peek(bits) || failed_for_no_reason(ops[i], bits),
        came_in_at_last(ops) ==> ops.len() == 2 * peeks(ops),
        with_reader(bits) is Some && turned_away_each_time(ops, tries) ==> ops.len() == 2 * tries
            && forall|i: int|
            #![trigger ops[i]]
            0 <= i < ops.len() ==> ops[i] == Op::Peek(bits) || failed_for_no_reason(ops[i], bits),
        with_reader(bits) is None ==> turned_away_each_time(ops, tries) && ops.len() == tries,
        with_reader(bits) is Some && ops.len() > 0 && (forall|i: int|
            #![trigger ops[i]]
            0 <= i < ops.len() ==> !failed_for_no_reason(ops[i], bits)) ==> came_in_at_last(ops)
            && ops.len() == 2,
{
    law_undisturbed_call(bits, ops);
    let still = if came_in_at_last(ops) {
        ops.drop_last()
    } else {
        ops
    };
    assert(changes(still) == 0);
    lemma_nothing_written(bits, still);
    assert forall|i: int| #![trigger ops[i]] 0 <= i < still.len() implies ops[i] == Op::Peek(bits)
        || (failed_for_no_reason(ops[i], bits) && with_reader(bits) is Some) by {
        assert(still[i] == ops[i]);
        assert(reader_try_at(ops, i));
        if ops[i] is SwapWeak {
            assert(still[i - 1] == ops[i - 1]);
        }
    }
    if came_in_at_last(ops) {
        let last = ops.len() - 1;
        assert(ops[last] == ops.last());
        assert(reader_try_at(ops, last));
    }
    if with_reader(bits) is Some {
        lemma_tries_with_room(bits, ops);
        if ops.len() > 2 {
            assert(reader_try_at(ops, 0));
            assert(ops[0] == Op::Peek(bits));
            assert(failed_for_no_reason(ops[1], bits));
        } else if ops.len() > 0 {
            assert(reader_try_at(ops, 0));
            assert(reader_try_at(ops, 1));
        }
    } else {
        lemma_only_peeks(ops);
    }
}

/// A writer that waits its turn gets in only where nobody is on the lock, and then the bare flag is
/// up. One that gives up leaves the word as it was.
///
/// Where nobody is on the lock, it never wins the flag in vain. Where the flag is down, and it did not
/// win it, each of its tries made an exchange that failed for no reason.
pub proof fn law_write_undisturbed(bits: usize, ops: Seq<Op>, rounds: nat)
    requires
        alone(bits, ops),
        got_in(ops) || gave_up(ops, rounds),
    ensures
        got_in(ops) ==> bits == 0 && left_at(bits, ops) == WRITER,
        got_in(ops) ==> left_at(bits, ops) == 1,
        gave_up(ops, rounds) ==> left_at(bits, ops) == bits,
        gave_up(ops, rounds) && bits == 0 ==> changes(ops) == 0,
        gave_up(ops, rounds) && changes(ops) == 0 && !flagged(bits) ==> forall|i: int|
            #![trigger ops[i]]
            0 <= i < ops.len() && ops[i] is Peek ==> ops[i] == Op::Peek(bits) && i + 1 < ops.len()
                && failed_for_no_reason(ops[i + 1], bits),
{
    law_undisturbed_call(bits, ops);
    if gave_up(ops, rounds) {
        if changes(ops) == 0 {
            lemma_nothing_written(bits, ops);
            assert forall|i: int| #![trigger ops[i]]
                0 <= i < ops.len() && ops[i] is Peek && !flagged(bits) implies ops[i] == Op::Peek(bits)
                && i + 1 < ops.len() && failed_for_no_reason(ops[i + 1], bits) by {
                assert(writer_try_at(ops, i));
                assert(!writes(ops[i + 1]));
            }
        } else {
            law_undisturbed_call(bits, ops.drop_last());
        }
    }
}

/// A try by the only writer gets in exactly if nobody is on the lock, is told that it is the second
/// exactly if the flag is up, and steps back exactly if only readers are inside. Unless it gets in
/// the word is as it was.
pub proof fn law_single_try_undisturbed(bits: usize, ops: Seq<Op>)
    requires
        alone(bits, ops),
        took_free_alone(ops) || was_second(ops) || stepped_back(ops),
    ensures
        took_free_alone(ops) <==> bits == 0,
        was_second(ops) <==> flagged(bits),
        stepped_back(ops) <==> !flagged(bits) && readers_in(bits) > 0,
        took_free_alone(ops) ==> left_at(bits, ops) == WRITER,
        was_second(ops) <==> bits % 2 == 1,
        stepped_back(ops) <==> bits % 2 == 0 && bits > 0,
        took_free_alone(ops) ==> left_at(bits, ops) == 1,
        was_second(ops) || stepped_back(ops) ==> left_at(bits, ops) == bits,
{
    reveal_with_fuel(alone, 3);
    reveal_with_fuel(left_at, 3);
    let one = if ops.len() == 2 {
        ops.drop_last()
    } else {
        ops
    };
    assert(one.drop_last() =~= Seq::empty());
    assert(one.last() == ops[0]);
    if ops.len() == 2 {
        assert(ops.last() == ops[1]);
    }
}

/// The only writer that waits gets in at once exactly if nobody is on the lock, with one operation that
/// leaves the word at one. It is told that it is the second exactly if the word was odd, and waits in
/// vain exactly if only readers are there and stay. Then the word is as it was.
pub proof fn law_only_writer_undisturbed(bits: usize, ops: Seq<Op>, rounds: nat)
    requires
        alone(bits, ops),
        (got_in(ops) && got_in_alone(ops, rounds)) || was_second(ops) || waited_in_vain(ops, rounds),
    ensures
        bits == 0 <==> got_in(ops) && got_in_alone(ops, rounds),
        bits == 0 ==> ops.len() == 1 && left_at(bits, ops) == 1,
        bits % 2 == 1 <==> was_second(ops),
        bits % 2 == 0 && bits > 0 <==> waited_in_vain(ops, rounds),
        bits > 0 ==> left_at(bits, ops) == bits,
        bits % 2 == 0 && bits > 0 ==> ops.len() == rounds + 2,
{
    law_undisturbed_call(bits, ops);
    law_tries_stand_where_they_say(ops, rounds);
    lemma_first_finds_the_word(bits, ops);
}

/// The first operation of a call that nobody disturbs finds the word as it was.
proof fn lemma_first_finds_the_word(bits: usize, ops: Seq<Op>)
    requires
        alone(bits, ops),
        ops.len() > 0,
    ensures
        answers(ops[0], bits),
    decreases ops.len(),
{
    if ops.len() > 1 {
        lemma_first_finds_the_word(bits, ops.drop_last());
    } else {
        assert(ops.drop_last() =~= Seq::empty());
        assert(ops.last() == ops[0]);
    }
}

/// Two questions in a row find the same word, and leave it as it was: the lock is not changed by being
/// asked.
pub proof fn law_questions_change_nothing(bits: usize, first: usize, second: usize)
    requires
        alone(bits, seq![Op::Peek(first)]),
        alone(left_at(bits, seq![Op::Peek(first)]), seq![Op::Peek(second)]),
    ensures
        first == second,
        first == bits,
        changes(seq![Op::Peek(first)]) == 0,
{
    law_question_undisturbed(bits, first);
    law_question_undisturbed(bits, second);
    assert(seq![Op::Peek(first)].drop_last() =~= Seq::empty());
    assert(changes(Seq::<Op>::empty()) == 0);
}

/// The only writer that has waited in vain leaves the word as it was.
pub proof fn law_waiting_in_vain_undisturbed(bits: usize, ops: Seq<Op>, rounds: nat)
    requires
        alone(bits, ops),
        waited_in_vain(ops, rounds),
    ensures
        left_at(bits, ops) == bits,
{
    law_tries_stand_where_they_say(ops, rounds);
    law_undisturbed_call(bits, ops);
}

/// A question finds the word as it is and leaves it so.
pub proof fn law_question_undisturbed(bits: usize, seen: usize)
    requires
        alone(bits, seq![Op::Peek(seen)]),
    ensures
        seen == bits,
        left_at(bits, seq![Op::Peek(seen)]) == bits,
{
    let ops = seq![Op::Peek(seen)];
    assert(ops.drop_last() =~= Seq::empty());
    assert(ops.last() == ops[0]);
}

/// A new lock is free: whoever asks first is told that nobody is on it, that the flag is down and that
/// there are no readers, and a first try gets in, whether it is a reader's, a writer's or the only
/// writer's.
pub proof fn law_new_lock_undisturbed(ops: Seq<Op>)
    requires
        alone(0, ops),
    ensures
        forall|seen: usize| ops == #[trigger] seq![Op::Peek(seen)] ==> seen == 0 && !flagged(seen)
            && readers_in(seen) == 0,
        !turned_away(ops),
        !found_busy(ops),
        !was_second(ops),
        !stepped_back(ops),
{
    assert forall|seen: usize| ops == #[trigger] seq![Op::Peek(seen)] implies seen == 0 && !flagged(
        seen,
    ) && readers_in(seen) == 0 by {
        law_question_undisturbed(0, seen);
    }
    if turned_away(ops) {
        law_try_read_undisturbed(0, ops);
    }
    if found_busy(ops) {
        law_try_write_undisturbed(0, ops);
    }
    if was_second(ops) || stepped_back(ops) {
        law_single_try_undisturbed(0, ops);
    }
}

/// A reader that comes in and leaves puts the word back, and taking it off took exactly one off.
pub proof fn law_reader_leaves_undisturbed(bits: usize, ops: Seq<Op>, before: usize)
    requires
        stage_of(ops) is Reading,
        alone(bits, ops.push(Op::TakeOff(before))),
    ensures
        readers_in(left_at(bits, ops)) == readers_in(bits) + 1,
        left_at(bits, ops) == bits + 2,
        before == bits + 2,
        left_at(bits, ops.push(Op::TakeOff(before))) == bits,
        stage_of(ops.push(Op::TakeOff(before))) is Out,
{
    assert(ops.push(Op::TakeOff(before)).drop_last() =~= ops);
    law_undisturbed_call(bits, ops);
    law_undisturbed_call(bits, ops.push(Op::TakeOff(before)));
}

/// A writer that leaves frees the lock.
pub proof fn law_writer_leaves_undisturbed(bits: usize, ops: Seq<Op>)
    requires
        stage_of(ops) is Inside,
        alone(bits, ops.push(Op::Clear)),
    ensures
        bits == 0,
        left_at(bits, ops) == 1,
        left_at(bits, ops.push(Op::Clear)) == 0,
        stage_of(ops.push(Op::Clear)) is Out,
{
    assert(ops.push(Op::Clear).drop_last() =~= ops);
    law_undisturbed_call(bits, ops);
    law_undisturbed_call(bits, ops.push(Op::Clear));
}

} // verus!
