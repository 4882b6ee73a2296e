//! Any number of calls, on any number of threads, as one run of the protocol.
//!
//! A schedule is what happens to one lock, act by act: an atomic operation of some call, asking the
//! cell and letting it go, or a write of a call that is inside. The contracts say of every call which
//! operations it makes and where it then stands, and that it asks the cell from its place. Here that is put together: whatever the schedule, it is a run of events of the
//! protocol, so what holds of the word, and of who is on it, in those runs holds of the locks. The
//! values in a schedule are those of the model: what a guard of a lock shows rests on the cell, and
//! the contracts of [`cell`](crate::cell) say what is known of that.

use crate::bits::flagged;
use crate::bits::raised;
use crate::bits::readers_in;
use crate::bits::with_reader;
use crate::bits::WRITER;
use crate::protocol::after;
use crate::protocol::after_all;
use crate::protocol::can_happen;
use crate::protocol::can_run;
use crate::protocol::fresh;
use crate::protocol::law_every_run_keeps_the_lock_sound;
use crate::protocol::Event;
use crate::protocol::Phase;
use crate::protocol::World;
use crate::trace::answers;
use crate::trace::entered;
use crate::trace::group_one_more;
use crate::trace::lemma_broken_for_good;
use crate::trace::lemma_stage_after_one_more;
use crate::trace::moved;
use crate::trace::stage_of;
use crate::trace::written;
use crate::trace::Op;
use crate::trace::Stage;
use vstd::prelude::*;

verus! {

/// One thing that happens to a lock. A number tells the calls apart.
pub enum Act<V> {
    /// A call makes an atomic operation on the word.
    Did(int, Op),
    /// A call asks the cell, and is given its guard or refused.
    Asked(int, bool),
    /// A call writes to the value through its guard.
    Wrote(int, V),
    /// A call lets its guard of the cell go.
    LetGo(int),
}

/// The word after a schedule on a new lock.
pub open spec fn word_after<V>(acts: Seq<Act<V>>) -> usize
    decreases acts.len(),
{
    if acts.len() == 0 {
        0
    } else {
        match acts.last() {
            Act::Did(_, op) => written(op, word_after(acts.drop_last())),
            _ => word_after(acts.drop_last()),
        }
    }
}

/// What the call `id` has done to the word in a schedule.
pub open spec fn ops_of<V>(acts: Seq<Act<V>>, id: int) -> Seq<Op>
    decreases acts.len(),
{
    if acts.len() == 0 {
        Seq::empty()
    } else {
        match acts.last() {
            Act::Did(who, op) => if who == id {
                ops_of(acts.drop_last(), id).push(op)
            } else {
                ops_of(acts.drop_last(), id)
            },
            _ => ops_of(acts.drop_last(), id),
        }
    }
}

/// Where the call `id` stands after a schedule.
pub open spec fn stands<V>(acts: Seq<Act<V>>, id: int) -> Stage {
    stage_of(ops_of(acts, id))
}

/// Whether the call `id` has a guard of the cell after a schedule.
pub open spec fn holds<V>(acts: Seq<Act<V>>, id: int) -> bool
    decreases acts.len(),
{
    acts.len() > 0 && match acts.last() {
        Act::Asked(who, given) => if who == id {
            given
        } else {
            holds(acts.drop_last(), id)
        },
        Act::LetGo(who) => who != id && holds(acts.drop_last(), id),
        _ => holds(acts.drop_last(), id),
    }
}

/// Whether a call may do this after a schedule as far as the cell is concerned: it asks from its place,
/// writes from inside through its guard, and keeps its place until it has let its guard go.
pub open spec fn proper<V>(acts: Seq<Act<V>>, act: Act<V>) -> bool {
    match act {
        Act::Did(id, op) => holds(acts, id) ==> moved(stands(acts, id), op) == stands(acts, id),
        Act::Asked(id, _) => (stands(acts, id) is Reading || stands(acts, id) is Inside) && !holds(
            acts,
            id,
        ),
        Act::Wrote(id, _) => stands(acts, id) is Inside && holds(acts, id),
        Act::LetGo(id) => holds(acts, id),
    }
}

/// Whether every operation in the schedule had an answer that it can have, on the word as the
/// schedule had left it.
pub open spec fn atomic<V>(acts: Seq<Act<V>>) -> bool
    decreases acts.len(),
{
    acts.len() == 0 || {
        &&& atomic(acts.drop_last())
        &&& acts.last() matches Act::Did(_, op) ==> answers(op, word_after(acts.drop_last()))
    }
}

/// Whether every call in the schedule does what the contracts say that calls do: none ever does what
/// nobody in its place may do, neither to the word nor to the cell.
pub open spec fn orderly<V>(acts: Seq<Act<V>>) -> bool
    decreases acts.len(),
{
    acts.len() == 0 || {
        &&& orderly(acts.drop_last())
        &&& proper(acts.drop_last(), acts.last())
        &&& acts.last() matches Act::Did(id, _) ==> !(stands(acts, id) is Broken)
    }
}

/// The events that an operation is, for a call that stood at `stage`.
pub open spec fn events_of<V>(stage: Stage, op: Op, id: int) -> Seq<Event<V>> {
    match op {
        Op::Peek(_) => seq![Event::Look(id)],
        Op::Look(bits) => if stage is Waiting && bits == WRITER {
            seq![Event::WriterIn(id)]
        } else {
            seq![Event::Look(id)]
        },
        Op::Swap(from, to, answer) | Op::SwapWeak(from, to, answer) => if answer is Err {
            seq![Event::Look(id)]
        } else {
            entry_events(entered(from, to), id)
        },
        Op::FlagUp(before) => if flagged(before) {
            seq![Event::SecondWriter(id)]
        } else {
            entry_events(entered(before, raised(before)), id)
        },
        Op::FlagDown(_) => seq![Event::FlagBack(id)],
        Op::TakeOff(_) => seq![Event::ReaderOut(id)],
        Op::Clear => seq![Event::WriterOut(id)],
    }
}

/// The events by which somebody who held nothing comes to `stage`.
pub open spec fn entry_events<V>(stage: Stage, id: int) -> Seq<Event<V>> {
    match stage {
        Stage::Reading => seq![Event::ReaderIn(id)],
        Stage::Waiting => seq![Event::FlagUp(id)],
        Stage::Inside => seq![Event::FlagUp(id), Event::WriterIn(id)],
        _ => seq![],
    }
}

/// The run of events that a schedule is.
pub open spec fn run_of<V>(acts: Seq<Act<V>>) -> Seq<Event<V>>
    decreases acts.len(),
{
    if acts.len() == 0 {
        Seq::empty()
    } else {
        run_of(acts.drop_last()) + match acts.last() {
            Act::Did(id, op) => events_of(stands(acts.drop_last(), id), op, id),
            Act::Wrote(id, value) => seq![Event::Write(id, value)],
            _ => seq![],
        }
    }
}

/// Whether the world has the call `id` where it stands.
pub open spec fn agrees<V>(w: World<V>, id: int, stage: Stage) -> bool {
    &&& w.readers.contains_key(id) <==> stage is Reading
    &&& w.writer == Some((id, Phase::Waiting)) <==> stage is Waiting
    &&& w.writer == Some((id, Phase::Inside)) <==> stage is Inside
}

/// One event is a run.
proof fn lemma_one_event<V>(w: World<V>, event: Event<V>)
    ensures
        can_run(w, seq![event]) <==> can_happen(w, event),
        after_all(w, seq![event]) == after(w, event),
{
    let run = seq![event];
    assert(run.drop_last() =~= Seq::empty());
    assert(run.last() == event);
    assert(after_all(w, run.drop_last()) == w);
    assert(can_run(w, run.drop_last()));
}

/// Two events are a run.
proof fn lemma_two_events<V>(w: World<V>, one: Event<V>, two: Event<V>)
    ensures
        can_run(w, seq![one, two]) <==> can_happen(w, one) && can_happen(after(w, one), two),
        after_all(w, seq![one, two]) == after(after(w, one), two),
{
    let run = seq![one, two];
    assert(run.drop_last() =~= seq![one]);
    assert(run.last() == two);
    lemma_one_event(w, one);
}

/// A run that goes on where another has ended is one run.
proof fn lemma_runs_join<V>(w: World<V>, run: Seq<Event<V>>, more: Seq<Event<V>>)
    requires
        can_run(w, run),
        can_run(after_all(w, run), more),
    ensures
        can_run(w, run + more),
        after_all(w, run + more) == after_all(after_all(w, run), more),
    decreases more.len(),
{
    if more.len() == 0 {
        assert(run + more =~= run);
    } else {
        lemma_runs_join(w, run, more.drop_last());
        assert((run + more).drop_last() =~= run + more.drop_last());
        assert((run + more).last() == more.last());
    }
}

/// An operation is the events it stands for. A call that holds the lock in its way, and finds the
/// word as it is, can make exactly those, they leave the word as the operation does, and they bring
/// that call where the operation does and no other call anywhere.
pub proof fn law_operation_is_events<V>(w: World<V>, id: int, stage: Stage, op: Op)
    requires
        w.sound(),
        agrees(w, id, stage),
        answers(op, w.bits),
        !(stage is Broken),
        !(moved(stage, op) is Broken),
    ensures
        can_run(w, events_of(stage, op, id)),
        after_all(w, events_of(stage, op, id)).bits == written(op, w.bits),
        after_all(w, events_of(stage, op, id)).value == w.value,
        agrees(after_all(w, events_of(stage, op, id)), id, moved(stage, op)),
        forall|other: int, at: Stage|
            other != id && #[trigger] agrees(w, other, at) ==> agrees(
                after_all(w, events_of(stage, op, id)),
                other,
                at,
            ),
{
    let run = events_of::<V>(stage, op, id);
    if run.len() == 2 {
        lemma_two_events(w, run[0], run[1]);
        assert(run =~= seq![run[0], run[1]]);
    } else {
        lemma_one_event(w, run[0]);
        assert(run =~= seq![run[0]]);
    }
    if w.readers.contains_key(id) {
        assert(w.readers.dom().contains(id));
        assert(w.readers.dom().len() > 0);
    }
}

/// Every orderly schedule is a run of the protocol from a new lock. It leaves the word where the
/// operations have left it, and everybody where the operations have brought them.
pub proof fn law_schedule_is_a_run<V>(first: V, acts: Seq<Act<V>>)
    requires
        atomic(acts),
        orderly(acts),
    ensures
        can_run(fresh(first), run_of(acts)),
        after_all(fresh(first), run_of(acts)).sound(),
        after_all(fresh(first), run_of(acts)).bits == word_after(acts),
        forall|id: int| #![trigger stands(acts, id)]
            agrees(after_all(fresh(first), run_of(acts)), id, stands(acts, id)) && !(stands(
                acts,
                id,
            ) is Broken),
    decreases acts.len(),
{
    broadcast use group_one_more;

    let start = fresh(first);
    if acts.len() > 0 {
        let past = acts.drop_last();
        law_schedule_is_a_run(first, past);
        let w = after_all(start, run_of(past));
        match acts.last() {
            Act::Did(id, op) => {
                let stage = stands(past, id);
                assert(ops_of(acts, id) == ops_of(past, id).push(op));
                law_operation_is_events(w, id, stage, op);
                lemma_runs_join(start, run_of(past), events_of(stage, op, id));
                assert forall|other: int| #![trigger stands(acts, other)] agrees(
                    after_all(start, run_of(acts)),
                    other,
                    stands(acts, other),
                ) && !(stands(acts, other) is Broken) by {
                    assert(agrees(w, other, stands(past, other)));
                    if other != id {
                        assert(ops_of(acts, other) == ops_of(past, other));
                    }
                }
            },
            Act::Wrote(id, value) => {
                assert(agrees(w, id, stands(past, id)));
                lemma_one_event(w, Event::Write(id, value));
                lemma_runs_join(start, run_of(past), seq![Event::Write(id, value)]);
                assert forall|other: int| #![trigger stands(acts, other)] agrees(
                    after_all(start, run_of(acts)),
                    other,
                    stands(acts, other),
                ) && !(stands(acts, other) is Broken) by {
                    assert(agrees(w, other, stands(past, other)));
                    assert(ops_of(acts, other) == ops_of(past, other));
                }
            },
            _ => {
                assert(run_of(acts) =~= run_of(past));
                assert forall|other: int| #![trigger stands(acts, other)] agrees(
                    after_all(start, run_of(acts)),
                    other,
                    stands(acts, other),
                ) && !(stands(acts, other) is Broken) by {
                    assert(agrees(w, other, stands(past, other)));
                    assert(ops_of(acts, other) == ops_of(past, other));
                }
            },
        }
        law_every_run_keeps_the_lock_sound(start, run_of(acts));
    } else {
        assert(run_of(acts) =~= Seq::<Event<V>>::empty());
    }
}

/// Whether what the call `id` has done is the beginning of a log that never goes wrong.
pub open spec fn keeps_to<V>(acts: Seq<Act<V>>, id: int, log: Seq<Op>) -> bool {
    ops_of(acts, id).is_prefix_of(log) && !(stage_of(log) is Broken)
}

/// Calls that keep their contracts make orderly schedules: it is enough that what each has done so
/// far is the beginning of a log that never goes wrong, and that each act is proper for the cell. Asking
/// the cell takes the slot of a reader or a writer, as the contracts say; that a guard lets go of the cell
/// before it gives up its slot is the order of its fields.
pub proof fn law_calls_make_orderly_schedules<V>(
    acts: Seq<Act<V>>,
    logs: spec_fn(int) -> Seq<Op>,
)
    requires
        forall|id: int| #[trigger] keeps_to(acts, id, logs(id)),
        forall|n: int| 0 <= n < acts.len() ==> proper(acts.subrange(0, n), #[trigger] acts[n]),
    ensures
        orderly(acts),
    decreases acts.len(),
{
    if acts.len() > 0 {
        let past = acts.drop_last();
        assert forall|id: int| #[trigger] keeps_to(past, id, logs(id)) by {
            assert(keeps_to(acts, id, logs(id)));
            let done = ops_of(acts, id);
            let before = ops_of(past, id);
            assert(before =~= done || before =~= done.drop_last());
            assert(before.is_prefix_of(logs(id)));
        }
        assert forall|n: int| 0 <= n < past.len() implies proper(
            past.subrange(0, n),
            #[trigger] past[n],
        ) by {
            assert(acts[n] == past[n]);
            assert(acts.subrange(0, n) =~= past.subrange(0, n));
        }
        law_calls_make_orderly_schedules(past, logs);
        let n = acts.len() - 1;
        assert(acts.subrange(0, n) =~= past);
        assert(acts[n] == acts.last());
        match acts.last() {
            Act::Did(id, _) => {
                let done = ops_of(acts, id);
                assert(keeps_to(acts, id, logs(id)));
                assert(logs(id).subrange(0, done.len() as int) =~= done);
                if stage_of(done) is Broken {
                    lemma_broken_for_good(logs(id), done.len() as int);
                }
            },
            _ => {},
        }
    }
}

/// While a call has write access, every other call holds nothing: no reader and no other writer is
/// on the lock, and the word is the bare flag.
pub proof fn law_write_access_is_exclusive<V>(acts: Seq<Act<V>>, id: int, other: int)
    requires
        atomic(acts),
        orderly(acts),
        stands(acts, id) is Inside,
        other != id,
    ensures
        stands(acts, other) is Out,
        word_after(acts) == WRITER,
        word_after(acts) == 1,
{
    law_schedule_is_a_run(arbitrary(), acts);
    let w = after_all(fresh(arbitrary::<V>()), run_of(acts));
    assert(agrees(w, id, stands(acts, id)));
    assert(agrees(w, other, stands(acts, other)));
    if w.readers.contains_key(other) {
        assert(w.readers.dom().contains(other));
        assert(w.readers.dom().len() > 0);
    }
}

/// The word tells who is there: the flag is up exactly if some call owns it, and it stays up until
/// that one gives up or leaves; the word is zero exactly if every call holds nothing.
pub proof fn law_word_tells_who_is_there<V>(acts: Seq<Act<V>>)
    requires
        atomic(acts),
        orderly(acts),
    ensures
        flagged(word_after(acts)) <==> exists|id: int|
            (#[trigger] stands(acts, id)) is Waiting || stands(acts, id) is Inside,
        word_after(acts) % 2 == 1 <==> exists|id: int|
            (#[trigger] stands(acts, id)) is Waiting || stands(acts, id) is Inside,
        word_after(acts) == 0 <==> forall|id: int| (#[trigger] stands(acts, id)) is Out,
{
    law_schedule_is_a_run(arbitrary(), acts);
    let w = after_all(fresh(arbitrary::<V>()), run_of(acts));
    if w.writer is Some {
        let (id, phase) = w.writer.unwrap();
        assert(w.writer == Some((id, phase)));
        assert(phase == Phase::Waiting || phase == Phase::Inside);
        assert(agrees(w, id, stands(acts, id)));
        assert(stands(acts, id) is Waiting || stands(acts, id) is Inside);
    }
    if exists|id: int|
        (#[trigger] stands(acts, id)) is Waiting || stands(acts, id) is Inside {
        let id = choose|id: int|
            (#[trigger] stands(acts, id)) is Waiting || stands(acts, id) is Inside;
        assert(agrees(w, id, stands(acts, id)));
    }
    if w.bits == 0 {
        assert forall|id: int| (#[trigger] stands(acts, id)) is Out by {
            assert(agrees(w, id, stands(acts, id)));
            if w.readers.contains_key(id) {
                assert(w.readers.dom().contains(id));
                assert(w.readers.dom().len() > 0);
            }
        }
    }
    if forall|id: int| (#[trigger] stands(acts, id)) is Out {
        assert forall|id: int| !w.readers.dom().contains(id) by {
            assert(agrees(w, id, stands(acts, id)));
        }
        assert(w.readers.dom() =~= Set::empty());
    }
}

/// The word counts the calls that have read access, each exactly once.
pub proof fn law_word_counts_the_readers<V>(acts: Seq<Act<V>>, readers: Set<int>)
    requires
        atomic(acts),
        orderly(acts),
        forall|id: int| #[trigger] readers.contains(id) <==> stands(acts, id) is Reading,
    ensures
        readers.finite(),
        readers_in(word_after(acts)) == readers.len(),
        word_after(acts) / 2 == readers.len(),
{
    law_schedule_is_a_run(arbitrary(), acts);
    let w = after_all(fresh(arbitrary::<V>()), run_of(acts));
    assert forall|id: int| readers.contains(id) == w.readers.dom().contains(id) by {
        assert(agrees(w, id, stands(acts, id)));
    }
    assert(readers =~= w.readers.dom());
}

/// The value that was last written in a schedule, or `first` where nothing was.
pub open spec fn value_after<V>(first: V, acts: Seq<Act<V>>) -> V
    decreases acts.len(),
{
    if acts.len() == 0 {
        first
    } else {
        match acts.last() {
            Act::Wrote(_, value) => value,
            _ => value_after(first, acts.drop_last()),
        }
    }
}

/// What is held after a schedule is the value that was last written, whoever comes next: the writer
/// that gets in finds it, and none of the writes before it is lost.
pub proof fn law_last_write_is_held<V>(first: V, acts: Seq<Act<V>>)
    requires
        atomic(acts),
        orderly(acts),
    ensures
        after_all(fresh(first), run_of(acts)).value == value_after(first, acts),
    decreases acts.len(),
{
    if acts.len() > 0 {
        let past = acts.drop_last();
        law_last_write_is_held(first, past);
        law_schedule_is_a_run(first, past);
        let w = after_all(fresh(first), run_of(past));
        match acts.last() {
            Act::Did(id, op) => {
                let stage = stands(past, id);
                assert(agrees(w, id, stage));
                lemma_stage_after_one_more(ops_of(past, id), op);
                law_operation_is_events(w, id, stage, op);
                lemma_runs_join(fresh(first), run_of(past), events_of(stage, op, id));
            },
            Act::Wrote(id, value) => {
                assert(agrees(w, id, stands(past, id)));
                lemma_one_event(w, Event::Write(id, value));
                lemma_runs_join(fresh(first), run_of(past), seq![Event::Write(id, value)]);
            },
            _ => {
                assert(run_of(acts) =~= run_of(past));
            },
        }
    }
}

/// Everybody who has read access after a schedule was shown the value that was last written, and
/// nothing else.
pub proof fn law_readers_were_shown_the_last_write<V>(first: V, acts: Seq<Act<V>>, id: int)
    requires
        atomic(acts),
        orderly(acts),
        stands(acts, id) is Reading,
    ensures
        after_all(fresh(first), run_of(acts)).readers.contains_key(id),
        after_all(fresh(first), run_of(acts)).readers[id] == value_after(first, acts),
{
    law_schedule_is_a_run(first, acts);
    law_last_write_is_held(first, acts);
    assert(agrees(after_all(fresh(first), run_of(acts)), id, stands(acts, id)));
}

/// Nobody writes while somebody has read access.
pub proof fn law_no_write_under_a_reader<V>(acts: Seq<Act<V>>, writer: int, value: V, reader: int)
    requires
        atomic(acts),
        orderly(acts.push(Act::Wrote(writer, value))),
    ensures
        !(stands(acts, reader) is Reading),
{
    assert(acts.push(Act::Wrote(writer, value)).drop_last() =~= acts);
    assert(orderly(acts));
    assert(stands(acts, writer) is Inside);
    if reader != writer {
        law_write_access_is_exclusive(acts, writer, reader);
    }
}

/// Whoever has a guard of the cell has its place on the word: it reads, or it is inside.
pub proof fn law_holders_have_their_place<V>(acts: Seq<Act<V>>, id: int)
    requires
        orderly(acts),
        holds(acts, id),
    ensures
        stands(acts, id) is Reading || stands(acts, id) is Inside,
    decreases acts.len(),
{
    broadcast use group_one_more;

    let past = acts.drop_last();
    if holds(past, id) {
        law_holders_have_their_place(past, id);
    }
}

/// The cell is free for whoever comes from the word. When a writer that is inside asks it, nobody else
/// has a guard of it, and when a reader asks it, only readers have one. So it has no cause to refuse
/// anybody but by its own limits.
pub proof fn law_cell_is_free_for_who_has_a_place<V>(acts: Seq<Act<V>>, id: int, given: bool)
    requires
        atomic(acts),
        orderly(acts.push(Act::Asked(id, given))),
    ensures
        stands(acts, id) is Reading || stands(acts, id) is Inside,
        stands(acts, id) is Inside ==> forall|other: int| !#[trigger] holds(acts, other),
        stands(acts, id) is Reading ==> forall|other: int| #[trigger]
            holds(acts, other) ==> stands(acts, other) is Reading,
{
    let next = acts.push(Act::Asked(id, given));
    assert(next.drop_last() =~= acts);
    assert(proper(acts, next.last()));
    assert forall|other: int| stands(acts, id) is Inside implies !#[trigger] holds(acts, other) by {
        if holds(acts, other) {
            law_holders_have_their_place(acts, other);
            law_write_access_is_exclusive(acts, id, other);
        }
    }
    assert forall|other: int| stands(acts, id) is Reading && #[trigger] holds(
        acts,
        other,
    ) implies stands(acts, other) is Reading by {
        law_holders_have_their_place(acts, other);
        if stands(acts, other) is Inside {
            law_write_access_is_exclusive(acts, other, id);
        }
    }
}

/// While a writer has its guard of the cell nobody else has one, and while a reader has one only readers
/// have.
pub proof fn law_guards_of_the_cell_go_together<V>(acts: Seq<Act<V>>, id: int, other: int)
    requires
        atomic(acts),
        orderly(acts),
        holds(acts, id),
        holds(acts, other),
        id != other,
    ensures
        stands(acts, id) is Reading,
        stands(acts, other) is Reading,
{
    law_holders_have_their_place(acts, id);
    law_holders_have_their_place(acts, other);
    if stands(acts, id) is Inside {
        law_write_access_is_exclusive(acts, id, other);
    }
    if stands(acts, other) is Inside {
        law_write_access_is_exclusive(acts, other, id);
    }
}

/// A writer waits for the others: while any other call has a place on the lock, or waits for one with
/// its flag up, no call is inside.
pub proof fn law_writer_waits_for_the_others<V>(acts: Seq<Act<V>>, id: int, other: int)
    requires
        atomic(acts),
        orderly(acts),
        id != other,
        !(stands(acts, other) is Out),
    ensures
        !(stands(acts, id) is Inside),
{
    if stands(acts, id) is Inside {
        law_write_access_is_exclusive(acts, id, other);
    }
}

/// What one call does takes nothing from another: the other stands where it stood, and has the guard of
/// the cell that it had.
pub proof fn law_nobody_loses_a_place<V>(acts: Seq<Act<V>>, act: Act<V>, other: int)
    requires
        act matches Act::Did(id, _) ==> id != other,
        act matches Act::Asked(id, _) ==> id != other,
        act matches Act::LetGo(id) ==> id != other,
    ensures
        stands(acts.push(act), other) == stands(acts, other),
        holds(acts.push(act), other) == holds(acts, other),
{
    assert(acts.push(act).drop_last() =~= acts);
}

/// A flag is claimed only at a moment when it is down, so it is never taken over from another writer.
/// Claiming it puts it up and leaves the count as it was.
pub proof fn law_flag_is_claimed_when_down<V>(acts: Seq<Act<V>>, id: int, op: Op)
    requires
        atomic(acts.push(Act::Did(id, op))),
        orderly(acts.push(Act::Did(id, op))),
        stands(acts, id) is Out,
        stands(acts.push(Act::Did(id, op)), id) is Waiting || stands(
            acts.push(Act::Did(id, op)),
            id,
        ) is Inside,
    ensures
        !flagged(word_after(acts)),
        forall|other: int|
            !((#[trigger] stands(acts, other)) is Waiting) && !(stands(acts, other) is Inside),
        word_after(acts.push(Act::Did(id, op))) == raised(word_after(acts)),
        readers_in(word_after(acts.push(Act::Did(id, op)))) == readers_in(word_after(acts)),
{
    broadcast use group_one_more;

    let next = acts.push(Act::Did(id, op));
    assert(next.drop_last() =~= acts);
    assert(ops_of(next, id) == ops_of(acts, id).push(op));
    law_word_tells_who_is_there(acts);
}

/// A reader comes in only at a moment when the flag is down and the count has room, and adds exactly one
/// reader.
pub proof fn law_reader_comes_in_when_flag_is_down<V>(acts: Seq<Act<V>>, id: int, op: Op)
    requires
        atomic(acts.push(Act::Did(id, op))),
        orderly(acts.push(Act::Did(id, op))),
        !(stands(acts, id) is Reading),
        stands(acts.push(Act::Did(id, op)), id) is Reading,
    ensures
        !flagged(word_after(acts)),
        with_reader(word_after(acts)) == Some(word_after(acts.push(Act::Did(id, op)))),
        !flagged(word_after(acts.push(Act::Did(id, op)))),
        readers_in(word_after(acts.push(Act::Did(id, op)))) == readers_in(word_after(acts)) + 1,
{
    broadcast use group_one_more;

    let next = acts.push(Act::Did(id, op));
    assert(next.drop_last() =~= acts);
    assert(ops_of(next, id) == ops_of(acts, id).push(op));
}

/// While a writer has the flag, whether it is inside or still waits for readers, a reader that tries to
/// come in stays out, and its tries change neither the flag nor the count.
pub proof fn law_reader_under_the_flag_changes_nothing<V>(
    acts: Seq<Act<V>>,
    id: int,
    op: Op,
    writer: int,
)
    requires
        atomic(acts.push(Act::Did(id, op))),
        orderly(acts.push(Act::Did(id, op))),
        stands(acts, writer) is Waiting || stands(acts, writer) is Inside,
        stands(acts, id) is Out,
        match op {
            Op::Peek(_) => true,
            Op::Swap(from, to, _) | Op::SwapWeak(from, to, _) => with_reader(from) == Some(to),
            _ => false,
        },
    ensures
        stands(acts.push(Act::Did(id, op)), id) is Out,
        word_after(acts.push(Act::Did(id, op))) == word_after(acts),
{
    broadcast use group_one_more;

    let next = acts.push(Act::Did(id, op));
    assert(next.drop_last() =~= acts);
    assert(ops_of(next, id) == ops_of(acts, id).push(op));
    law_word_tells_who_is_there(acts);
    assert(flagged(word_after(acts)));
}

/// Whether the cell answers by its rule: it refuses a writer only where somebody has a guard of it, and a
/// reader only where a writer has one, or where it is full.
pub open spec fn cell_keeps_its_rule<V>(acts: Seq<Act<V>>, full: spec_fn(Seq<Act<V>>) -> bool) -> bool
    decreases acts.len(),
{
    acts.len() == 0 || {
        let past = acts.drop_last();
        &&& cell_keeps_its_rule(past, full)
        &&& acts.last() matches Act::Asked(id, given) ==> !given ==> if stands(past, id) is Inside {
            exists|other: int| #[trigger] holds(past, other)
        } else {
            full(past) || exists|other: int| #[trigger]
                holds(past, other) && stands(past, other) is Inside
        }
    }
}

/// A writer that asks from its place is given its guard, and so is a reader unless the cell is full: a
/// call is never refused because of itself, since it asks only while it has no guard.
pub proof fn law_who_has_a_place_is_not_refused<V>(
    acts: Seq<Act<V>>,
    id: int,
    given: bool,
    full: spec_fn(Seq<Act<V>>) -> bool,
)
    requires
        atomic(acts),
        orderly(acts.push(Act::Asked(id, given))),
        cell_keeps_its_rule(acts.push(Act::Asked(id, given)), full),
    ensures
        !holds(acts, id),
        stands(acts, id) is Inside ==> given,
        stands(acts, id) is Reading && !full(acts) ==> given,
        holds(acts.push(Act::Asked(id, given)), id) == given,
{
    let next = acts.push(Act::Asked(id, given));
    assert(next.drop_last() =~= acts);
    law_cell_is_free_for_who_has_a_place(acts, id, given);
    assert(proper(acts, next.last()));
}

/// A writer that is told that it is the second met another one: at that moment some other call has the
/// flag, and this one has no place. The word stays as it is.
pub proof fn law_second_writer_met_another<V>(acts: Seq<Act<V>>, id: int, before: usize)
    requires
        atomic(acts.push(Act::Did(id, Op::FlagUp(before)))),
        orderly(acts.push(Act::Did(id, Op::FlagUp(before)))),
        before % 2 == 1,
    ensures
        stands(acts, id) is Out,
        stands(acts.push(Act::Did(id, Op::FlagUp(before))), id) is Out,
        exists|other: int|
            other != id && ((#[trigger] stands(acts, other)) is Waiting || stands(acts, other) is Inside),
        word_after(acts.push(Act::Did(id, Op::FlagUp(before)))) == word_after(acts),
{
    broadcast use group_one_more;

    let next = acts.push(Act::Did(id, Op::FlagUp(before)));
    assert(next.drop_last() =~= acts);
    assert(ops_of(next, id) == ops_of(acts, id).push(Op::FlagUp(before)));
    assert(before == word_after(acts));
    law_word_tells_who_is_there(acts);
    let other = choose|other: int|
        (#[trigger] stands(acts, other)) is Waiting || stands(acts, other) is Inside;
    assert(stands(acts, other) is Waiting || stands(acts, other) is Inside);
    assert(!(stands(next, id) is Broken));
}

} // verus!
