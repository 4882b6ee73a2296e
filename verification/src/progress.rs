//! That a waiting writer gets in.
//!
//! A schedule that never ends is given by its acts, one for each number. A writer that has the flag
//! up, and goes on looking, gets in once the readers that were there have each left, however many
//! others try to come in meanwhile.

use crate::bits::flagged;
use crate::bits::raised;
use crate::bits::readers_in;
use crate::bits::WRITER;
use crate::schedule::atomic;
use crate::schedule::law_word_counts_the_readers;
use crate::schedule::law_word_tells_who_is_there;
use crate::schedule::ops_of;
use crate::schedule::orderly;
use crate::schedule::stands;
use crate::schedule::word_after;
use crate::schedule::Act;
use crate::trace::answers;
use crate::trace::group_one_more;
use crate::trace::Op;
use crate::undisturbed::failed_for_no_reason;
use vstd::prelude::*;

verus! {

broadcast use group_one_more;

/// What has happened before the moment `n`.
pub open spec fn until<V>(acts: spec_fn(nat) -> Act<V>, n: nat) -> Seq<Act<V>> {
    Seq::new(n, |i: int| acts(i as nat))
}

/// Whether what has happened before any moment is an orderly schedule.
pub open spec fn always_orderly<V>(acts: spec_fn(nat) -> Act<V>) -> bool {
    forall|n: nat| atomic(#[trigger] until(acts, n)) && orderly(until(acts, n))
}

/// Whether the call `id` makes an acquiring load at the moment `n`.
pub open spec fn looks_at<V>(acts: spec_fn(nat) -> Act<V>, id: int, n: nat) -> bool {
    acts(n) matches Act::Did(who, op) && who == id && op is Look
}

/// Whether the call `id` looks for readers again and again while it has to wait.
pub open spec fn keeps_looking<V>(acts: spec_fn(nat) -> Act<V>, id: int) -> bool {
    forall|n: nat|
        (#[trigger] stands(until(acts, n), id)) is Waiting ==> exists|m: nat|
            m >= n && #[trigger] looks_at(acts, id, m)
}

/// Whether the call `id` never puts the flag down, once it has it, before it has been inside.
pub open spec fn never_gives_up<V>(acts: spec_fn(nat) -> Act<V>, id: int) -> bool {
    forall|n: nat|
        #![trigger acts(n)]
        !(acts(n) matches Act::Did(who, op) && who == id && op is FlagDown)
}

/// Whether the call `id` has no read access at the moment `n`.
pub open spec fn not_reading<V>(acts: spec_fn(nat) -> Act<V>, id: int, n: nat) -> bool {
    !(stands(until(acts, n), id) is Reading)
}

/// Whether every call that has read access at the moment `n` lets go of it at some later moment.
pub open spec fn readers_leave<V>(acts: spec_fn(nat) -> Act<V>, n: nat) -> bool {
    forall|id: int|
        (#[trigger] stands(until(acts, n), id)) is Reading ==> exists|m: nat|
            m >= n && #[trigger] not_reading(acts, id, m)
}

/// One more moment is one more act.
proof fn lemma_one_more_act<V>(acts: spec_fn(nat) -> Act<V>, n: nat)
    ensures
        until(acts, n + 1).len() == n + 1,
        until(acts, n + 1).drop_last() == until(acts, n),
        until(acts, n + 1).last() == acts(n),
{
    assert(until(acts, n + 1).drop_last() =~= until(acts, n));
}

/// The flag keeps readers out: whoever has no read access while a call has the flag has none after the
/// next act either, and the count in the word has not gone up.
pub proof fn law_no_reader_comes_in_under_the_flag<V>(acts: Seq<Act<V>>, act: Act<V>, id: int)
    requires
        atomic(acts.push(act)),
        orderly(acts.push(act)),
        stands(acts, id) is Waiting || stands(acts, id) is Inside,
    ensures
        forall|other: int|
            (#[trigger] stands(acts.push(act), other)) is Reading ==> stands(acts, other) is Reading,
        readers_in(word_after(acts.push(act))) <= readers_in(word_after(acts)),
{
    let next = acts.push(act);
    assert(next.drop_last() =~= acts);
    assert(next.last() == act);
    law_word_tells_who_is_there(acts);
    assert(flagged(word_after(acts)));
    assert forall|other: int| (#[trigger] stands(next, other)) is Reading implies stands(
        acts,
        other,
    ) is Reading by {
        match act {
            Act::Did(who, op) => {
                if who == other {
                    assert(ops_of(next, other) == ops_of(acts, other).push(op));
                } else {
                    assert(ops_of(next, other) == ops_of(acts, other));
                }
            },
            _ => {
                assert(ops_of(next, other) == ops_of(acts, other));
            },
        }
    }
    let before = Set::new(|other: int| stands(acts, other) is Reading);
    let after = Set::new(|other: int| stands(next, other) is Reading);
    law_word_counts_the_readers(acts, before);
    law_word_counts_the_readers(next, after);
    assert(after.subset_of(before));
    vstd::set_lib::lemma_len_subset(after, before);
}

/// What a waiting writer sees is true: a look finds the bare flag, and so lets it in, exactly if nobody
/// has read access any more. The look itself changes nothing.
pub proof fn law_waiting_writer_sees_the_readers<V>(acts: Seq<Act<V>>, id: int, bits: usize)
    requires
        atomic(acts.push(Act::Did(id, Op::Look(bits)))),
        orderly(acts.push(Act::Did(id, Op::Look(bits)))),
        stands(acts, id) is Waiting,
    ensures
        bits == word_after(acts),
        word_after(acts.push(Act::Did(id, Op::Look(bits)))) == word_after(acts),
        bits == WRITER <==> forall|other: int| !((#[trigger] stands(acts, other)) is Reading),
        stands(acts.push(Act::Did(id, Op::Look(bits))), id) is Inside <==> bits == WRITER,
        stands(acts.push(Act::Did(id, Op::Look(bits))), id) is Waiting <==> bits != WRITER,
{
    let next = acts.push(Act::Did(id, Op::Look(bits)));
    assert(next.drop_last() =~= acts);
    assert(ops_of(next, id) == ops_of(acts, id).push(Op::Look(bits)));
    law_word_tells_who_is_there(acts);
    assert(flagged(bits));
    let readers = Set::new(|other: int| stands(acts, other) is Reading);
    law_word_counts_the_readers(acts, readers);
    if bits == WRITER {
        assert forall|other: int| !((#[trigger] stands(acts, other)) is Reading) by {
            assert(!readers.contains(other));
        }
    }
    if forall|other: int| !((#[trigger] stands(acts, other)) is Reading) {
        assert(readers =~= Set::empty());
    }
}

/// While a call waits from `start` on and never gets in or gives up, whoever had no read access at some
/// moment has none later.
proof fn lemma_who_is_out_stays_out<V>(
    acts: spec_fn(nat) -> Act<V>,
    id: int,
    other: int,
    start: nat,
    n: nat,
)
    requires
        always_orderly(acts),
        start <= n,
        forall|m: nat| m >= start ==> (#[trigger] stands(until(acts, m), id)) is Waiting,
        not_reading(acts, other, start),
    ensures
        not_reading(acts, other, n),
    decreases n,
{
    if n > start {
        let past = (n - 1) as nat;
        lemma_who_is_out_stays_out(acts, id, other, start, past);
        lemma_one_more_act(acts, past);
        assert(until(acts, n) =~= until(acts, past).push(acts(past)));
        assert(stands(until(acts, past), id) is Waiting);
        if stands(until(acts, n), other) is Reading {
            law_no_reader_comes_in_under_the_flag(until(acts, past), acts(past), id);
        }
    }
}

/// A writer that has the flag and neither gets in nor gives up goes on waiting.
proof fn lemma_waits_on<V>(acts: spec_fn(nat) -> Act<V>, id: int, start: nat, n: nat)
    requires
        always_orderly(acts),
        start <= n,
        stands(until(acts, start), id) is Waiting,
        never_gives_up(acts, id),
        forall|m: nat| m >= start ==> !((#[trigger] stands(until(acts, m), id)) is Inside),
    ensures
        stands(until(acts, n), id) is Waiting,
    decreases n,
{
    if n > start {
        let past = (n - 1) as nat;
        lemma_waits_on(acts, id, start, past);
        lemma_one_more_act(acts, past);
        assert(orderly(until(acts, n)));
        assert(!(stands(until(acts, n), id) is Inside));
        match acts(past) {
            Act::Did(who, op) => {
                if who == id {
                    assert(ops_of(until(acts, n), id) == ops_of(until(acts, past), id).push(op));
                } else {
                    assert(ops_of(until(acts, n), id) == ops_of(until(acts, past), id));
                }
            },
            _ => {
                assert(ops_of(until(acts, n), id) == ops_of(until(acts, past), id));
            },
        }
    }
}

/// There is a moment from which on none of these readers is left.
proof fn lemma_all_leave<V>(
    acts: spec_fn(nat) -> Act<V>,
    id: int,
    start: nat,
    readers: Set<int>,
) -> (n: nat)
    requires
        always_orderly(acts),
        forall|m: nat| m >= start ==> (#[trigger] stands(until(acts, m), id)) is Waiting,
        readers_leave(acts, start),
        readers.finite(),
        forall|other: int| #[trigger]
            readers.contains(other) ==> stands(until(acts, start), other) is Reading,
    ensures
        n >= start,
        forall|other: int| #[trigger] readers.contains(other) ==> not_reading(acts, other, n),
    decreases readers.len(),
{
    if readers.len() == 0 {
        assert(readers =~= Set::empty());
        start
    } else {
        let one = readers.choose();
        let rest = readers.remove(one);
        let n = lemma_all_leave(acts, id, start, rest);
        assert(stands(until(acts, start), one) is Reading);
        let m = choose|m: nat| m >= start && #[trigger] not_reading(acts, one, m);
        let later = if n >= m {
            n
        } else {
            m
        };
        assert forall|other: int| #[trigger] readers.contains(other) implies not_reading(
            acts,
            other,
            later,
        ) by {
            if other == one {
                lemma_who_is_out_stays_out(acts, id, one, m, later);
            } else {
                assert(rest.contains(other));
                lemma_who_is_out_stays_out(acts, id, other, n, later);
            }
        }
        later
    }
}

/// Readers cannot starve a writer: one that has the flag, goes on looking and does not give up, gets in,
/// if each reader that was there when it began to wait leaves at some time. Readers may go on arriving
/// without end.
pub proof fn law_waiting_writer_gets_in<V>(acts: spec_fn(nat) -> Act<V>, id: int, start: nat)
    requires
        always_orderly(acts),
        stands(until(acts, start), id) is Waiting,
        readers_leave(acts, start),
        keeps_looking(acts, id),
        never_gives_up(acts, id),
    ensures
        exists|n: nat| n >= start && (#[trigger] stands(until(acts, n), id)) is Inside,
{
    if !(exists|n: nat| n >= start && (#[trigger] stands(until(acts, n), id)) is Inside) {
        assert forall|m: nat| m >= start implies (#[trigger] stands(until(acts, m), id)) is Waiting by {
            lemma_waits_on(acts, id, start, m);
        }
        let first = until(acts, start);
        let readers = Set::new(|other: int| stands(first, other) is Reading);
        law_word_counts_the_readers(first, readers);
        let n = lemma_all_leave(acts, id, start, readers);
        assert(stands(until(acts, n), id) is Waiting);
        let m = choose|m: nat| m >= n && #[trigger] looks_at(acts, id, m);
        let met = until(acts, m);
        let seen = until(acts, m + 1);
        lemma_one_more_act(acts, m);
        if let Act::Did(_, op) = acts(m) {
            if let Op::Look(bits) = op {
                assert(seen =~= met.push(Act::Did(id, Op::Look(bits))));
                assert(stands(met, id) is Waiting);
                assert forall|other: int| !((#[trigger] stands(met, other)) is Reading) by {
                    if readers.contains(other) {
                        lemma_who_is_out_stays_out(acts, id, other, n, m);
                    } else {
                        lemma_who_is_out_stays_out(acts, id, other, start, m);
                    }
                    assert(not_reading(acts, other, m));
                }
                law_waiting_writer_sees_the_readers(met, id, bits);
                assert(stands(seen, id) is Inside);
            }
        }
    }
}

/// One of several writers gets in: if at some moment its exchange for the flag finds the word as it had
/// seen it, with the flag down, and does not fail for no reason, it has the flag, and if it then goes on
/// looking and does not give up, and each reader that was there leaves at some time, it gets in. Readers
/// may go on arriving without end.
pub proof fn law_one_of_several_writers_gets_in<V>(
    acts: spec_fn(nat) -> Act<V>,
    id: int,
    start: nat,
    from: usize,
    answer: Result<usize, usize>,
)
    requires
        always_orderly(acts),
        acts(start) == Act::<V>::Did(id, Op::SwapWeak(from, raised(from), answer)),
        from == word_after(until(acts, start)),
        !flagged(from),
        !failed_for_no_reason(Op::SwapWeak(from, raised(from), answer), from),
        readers_leave(acts, start + 1),
        keeps_looking(acts, id),
        never_gives_up(acts, id),
    ensures
        stands(until(acts, start + 1), id) is Waiting || stands(until(acts, start + 1), id) is Inside,
        exists|n: nat| n > start && (#[trigger] stands(until(acts, n), id)) is Inside,
{
    let past = until(acts, start);
    let next = until(acts, start + 1);
    lemma_one_more_act(acts, start);
    assert(ops_of(next, id) == ops_of(past, id).push(Op::SwapWeak(from, raised(from), answer)));
    assert(orderly(next) && atomic(next));
    if stands(next, id) is Waiting {
        law_waiting_writer_gets_in(acts, id, start + 1);
    }
}

/// The only writer gets in: where the flag is down, putting it up takes one step whatever the readers do,
/// and if it goes on looking and does not give up, and each reader that was there then leaves at some
/// time, it gets in.
pub proof fn law_only_writer_gets_in<V>(
    acts: spec_fn(nat) -> Act<V>,
    id: int,
    start: nat,
    before: usize,
)
    requires
        always_orderly(acts),
        acts(start) == Act::<V>::Did(id, Op::FlagUp(before)),
        !flagged(word_after(until(acts, start))),
        readers_leave(acts, start + 1),
        keeps_looking(acts, id),
        never_gives_up(acts, id),
    ensures
        stands(until(acts, start + 1), id) is Waiting || stands(until(acts, start + 1), id) is Inside,
        exists|n: nat| n > start && (#[trigger] stands(until(acts, n), id)) is Inside,
{
    let past = until(acts, start);
    let next = until(acts, start + 1);
    lemma_one_more_act(acts, start);
    assert(ops_of(next, id) == ops_of(past, id).push(Op::FlagUp(before)));
    assert(orderly(next) && atomic(next));
    assert(answers(Op::FlagUp(before), word_after(past)));
    if stands(next, id) is Waiting {
        law_waiting_writer_gets_in(acts, id, start + 1);
    }
}

} // verus!
