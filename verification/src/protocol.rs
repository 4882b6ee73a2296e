//! What the locks promise as a whole, stated over every interleaving of every number of threads.
//!
//! A [`World`] is a lock together with everybody who is on it. An [`Event`] is one atomic operation
//! on the word of the lock, or one write to the value. Threads interleave by events, so what holds of
//! every run of events holds of every schedule. The value is that of the model; the lock itself keeps
//! its value in a [`cell`](crate::cell).

use crate::bits::flagged;
use crate::bits::has_room;
use crate::bits::lowered;
use crate::bits::raised;
use crate::bits::readers_in;
use crate::bits::verdict_on;
use crate::bits::with_reader;
use crate::bits::without_reader;
use crate::bits::Verdict;
use crate::bits::READER;
use crate::bits::WRITER;
use vstd::prelude::*;

verus! {

/// How far a writer that owns the flag has come.
pub enum Phase {
    /// The flag is up, and the writer waits for the readers to leave.
    Waiting,
    /// The writer has the value to itself.
    Inside,
}

/// A lock and everybody who is on it.
pub struct World<V> {
    /// The word.
    pub bits: usize,
    /// The value in the cell.
    pub value: V,
    /// The readers inside, each with the value it was shown when it came in.
    pub readers: Map<int, V>,
    /// The writer that owns the flag, if any.
    pub writer: Option<(int, Phase)>,
}

/// One atomic operation on the word, or one write to the value. A number tells threads apart.
pub enum Event<V> {
    /// An exchange adds one reader.
    ReaderIn(int),
    /// A subtraction takes one reader off.
    ReaderOut(int),
    /// An exchange, or an atomic or that finds the flag down, makes the flag a writer's own.
    FlagUp(int),
    /// The writer that owns the flag sees the flag and nothing else.
    WriterIn(int),
    /// The writer that owns the flag gives up and puts it down.
    FlagBack(int),
    /// The writer inside writes.
    Write(int, V),
    /// The writer inside clears the word.
    WriterOut(int),
    /// An atomic or finds the flag up: somebody who is not the only writer.
    SecondWriter(int),
    /// A load, or an exchange that fails.
    Look(int),
}

/// A new lock: the word is zero and nobody is on it.
pub open spec fn fresh<V>(value: V) -> World<V> {
    World { bits: 0, value, readers: Map::empty(), writer: None }
}

/// Whether `event` can happen in `w`. What a thread does depends on the word it finds and on what it
/// holds itself, and on nothing else.
pub open spec fn can_happen<V>(w: World<V>, event: Event<V>) -> bool {
    match event {
        Event::ReaderIn(id) => with_reader(w.bits) is Some && !w.readers.contains_key(id),
        Event::ReaderOut(id) => w.readers.contains_key(id),
        Event::FlagUp(id) => !flagged(w.bits),
        Event::WriterIn(id) => w.writer == Some((id, Phase::Waiting)) && w.bits == WRITER,
        Event::FlagBack(id) => w.writer == Some((id, Phase::Waiting)),
        Event::Write(id, value) => w.writer == Some((id, Phase::Inside)),
        Event::WriterOut(id) => w.writer == Some((id, Phase::Inside)),
        Event::SecondWriter(id) => flagged(w.bits),
        Event::Look(id) => true,
    }
}

/// What `event` makes of `w`.
pub open spec fn after<V>(w: World<V>, event: Event<V>) -> World<V> {
    match event {
        Event::ReaderIn(id) => World {
            bits: with_reader(w.bits)->0,
            readers: w.readers.insert(id, w.value),
            ..w
        },
        Event::ReaderOut(id) => World {
            bits: without_reader(w.bits),
            readers: w.readers.remove(id),
            ..w
        },
        Event::FlagUp(id) => World {
            bits: raised(w.bits),
            writer: Some((id, Phase::Waiting)),
            ..w
        },
        Event::WriterIn(id) => World { writer: Some((id, Phase::Inside)), ..w },
        Event::FlagBack(id) => World { bits: lowered(w.bits), writer: None, ..w },
        Event::Write(id, value) => World { value, ..w },
        Event::WriterOut(id) => World { bits: 0, writer: None, ..w },
        Event::SecondWriter(id) => World { bits: raised(w.bits), ..w },
        Event::Look(id) => w,
    }
}

/// What a run of events makes of `w`.
pub open spec fn after_all<V>(w: World<V>, events: Seq<Event<V>>) -> World<V>
    decreases events.len(),
{
    if events.len() == 0 {
        w
    } else {
        after(after_all(w, events.drop_last()), events.last())
    }
}

/// Whether a run of events can happen from `w`.
pub open spec fn can_run<V>(w: World<V>, events: Seq<Event<V>>) -> bool
    decreases events.len(),
{
    events.len() == 0 || (can_run(w, events.drop_last()) && can_happen(
        after_all(w, events.drop_last()),
        events.last(),
    ))
}

/// The value that was last written in a run, or `first` where nothing was.
pub open spec fn last_written<V>(first: V, events: Seq<Event<V>>) -> V
    decreases events.len(),
{
    if events.len() == 0 {
        first
    } else {
        match events.last() {
            Event::Write(_, value) => value,
            _ => last_written(first, events.drop_last()),
        }
    }
}

impl<V> World<V> {
    /// A writer has the value to itself.
    pub open spec fn writer_inside(self) -> bool {
        self.writer matches Some((_, phase)) && phase is Inside
    }

    /// What holds of a lock at every moment: the word counts the readers and flags the writer, a
    /// writer inside is alone, and every reader still looks at the value it was shown.
    pub open spec fn sound(self) -> bool {
        &&& self.readers.dom().finite()
        &&& readers_in(self.bits) == self.readers.dom().len()
        &&& flagged(self.bits) <==> self.writer is Some
        &&& self.writer_inside() ==> self.readers.dom().len() == 0
        &&& forall|id: int| #[trigger]
            self.readers.contains_key(id) ==> self.readers[id] == self.value
    }
}

/// A new lock is sound, and free.
pub proof fn law_new_lock_is_free<V>(value: V)
    ensures
        fresh(value).sound(),
        fresh(value).bits == 0,
        with_reader(fresh(value).bits) is Some,
        !flagged(fresh(value).bits),
{
}

/// Whatever happens next, a sound lock stays sound.
pub proof fn law_every_event_keeps_the_lock_sound<V>(w: World<V>, event: Event<V>)
    requires
        w.sound(),
        can_happen(w, event),
    ensures
        after(w, event).sound(),
{
    let next = after(w, event);
    match event {
        Event::ReaderIn(id) => {
            assert(next.readers.dom() =~= w.readers.dom().insert(id));
        },
        Event::ReaderOut(id) => {
            assert(next.readers.dom() =~= w.readers.dom().remove(id));
            assert(w.readers.dom().contains(id));
            assert(w.readers.dom().len() > 0);
        },
        _ => {},
    }
}

/// A lock is sound at every moment of every run.
pub proof fn law_every_run_keeps_the_lock_sound<V>(w: World<V>, events: Seq<Event<V>>)
    requires
        w.sound(),
        can_run(w, events),
    ensures
        after_all(w, events).sound(),
    decreases events.len(),
{
    if events.len() > 0 {
        law_every_run_keeps_the_lock_sound(w, events.drop_last());
        law_every_event_keeps_the_lock_sound(after_all(w, events.drop_last()), events.last());
    }
}

/// The last event of a run, and all events before it, are in the run.
proof fn lemma_what_came_before_is_in_the_run<V>(events: Seq<Event<V>>)
    requires
        events.len() > 0,
    ensures
        events.contains(events.last()),
        forall|e: Event<V>| events.drop_last().contains(e) ==> events.contains(e),
{
    assert(events[events.len() - 1] == events.last());
    assert forall|e: Event<V>| events.drop_last().contains(e) implies events.contains(e) by {
        let i = choose|i: int| 0 <= i < events.len() - 1 && events.drop_last()[i] == e;
        assert(events[i] == e);
    }
}

/// A writer inside is alone: no reader is beside it, the word is the bare flag, and nobody else
/// can come in, as a reader or as a writer.
pub proof fn law_writer_is_alone<V>(w: World<V>, id: int)
    requires
        w.sound(),
        w.writer_inside(),
    ensures
        w.readers.dom() =~= Set::empty(),
        w.bits == WRITER,
        !can_happen(w, Event::ReaderIn(id)),
        !can_happen(w, Event::FlagUp(id)),
{
}

/// Writers take turns: while one owns the flag, waiting or inside, no other can claim it. One that
/// tries with an atomic or learns that it is the second, and changes nothing.
pub proof fn law_writers_take_turns<V>(w: World<V>, id: int)
    requires
        w.sound(),
        w.writer is Some,
    ensures
        !can_happen(w, Event::FlagUp(id)),
        can_happen(w, Event::SecondWriter(id)),
        after(w, Event::SecondWriter(id)) == w,
{
}

/// Readers never wait on each other: one more can come in exactly if no writer holds the lock or
/// waits for it and the count has room, however many readers are inside. All of those stay.
pub proof fn law_readers_share<V>(w: World<V>, id: int)
    requires
        w.sound(),
        !w.readers.contains_key(id),
    ensures
        can_happen(w, Event::ReaderIn(id)) <==> w.writer is None && has_room(w.bits),
        can_happen(w, Event::ReaderIn(id)) <==> w.writer is None && 2 * (w.readers.dom().len() + 1)
            <= usize::MAX,
        can_happen(w, Event::ReaderIn(id)) ==> after(w, Event::ReaderIn(id)).bits == 2 * (
        w.readers.dom().len() + 1),
        forall|other: int| #[trigger]
            w.readers.contains_key(other) ==> after(
                w,
                Event::ReaderIn(id),
            ).readers.contains_key(other),
{
}

/// No reader ever sees a value change under it: whatever happens while a reader is inside, up to
/// its own leaving, the value stays what the reader was shown.
pub proof fn law_value_stands_still_for_readers<V>(w: World<V>, events: Seq<Event<V>>, id: int)
    requires
        w.sound(),
        w.readers.contains_key(id),
        can_run(w, events),
        !events.contains(Event::ReaderOut(id)),
    ensures
        after_all(w, events).value == w.value,
        after_all(w, events).readers.contains_key(id),
        after_all(w, events).readers[id] == w.readers[id],
    decreases events.len(),
{
    if events.len() > 0 {
        let before = events.drop_last();
        lemma_what_came_before_is_in_the_run(events);
        law_value_stands_still_for_readers(w, before, id);
        law_every_run_keeps_the_lock_sound(w, before);
        let v = after_all(w, before);
        assert(v.readers.dom().contains(id));
        assert(v.readers.dom().len() > 0);
    }
}

/// What a lock holds is what was last written, and that is what every reader inside sees.
pub proof fn law_readers_see_the_last_write<V>(first: V, events: Seq<Event<V>>)
    requires
        can_run(fresh(first), events),
    ensures
        after_all(fresh(first), events).value == last_written(first, events),
        forall|id: int| #[trigger]
            after_all(fresh(first), events).readers.contains_key(id) ==> after_all(
                fresh(first),
                events,
            ).readers[id] == last_written(first, events),
    decreases events.len(),
{
    law_every_run_keeps_the_lock_sound(fresh(first), events);
    if events.len() > 0 {
        law_readers_see_the_last_write(first, events.drop_last());
    }
}

/// Nobody but the writer inside changes the value.
pub proof fn law_only_the_writer_inside_writes<V>(w: World<V>, event: Event<V>)
    requires
        can_happen(w, event),
        after(w, event).value != w.value,
    ensures
        w.writer_inside(),
        event matches Event::Write(id, _) && w.writer == Some((id, Phase::Inside)),
{
}

/// The flag stops new readers: while a writer keeps it, the readers inside can only leave, and the
/// count in the word never goes up.
pub proof fn law_flag_stops_new_readers<V>(w: World<V>, events: Seq<Event<V>>, id: int)
    requires
        w.sound(),
        w.writer matches Some((owner, _)) && owner == id,
        can_run(w, events),
        !events.contains(Event::FlagBack(id)),
        !events.contains(Event::WriterOut(id)),
    ensures
        after_all(w, events).writer matches Some((owner, _)) && owner == id,
        after_all(w, events).readers.dom().subset_of(w.readers.dom()),
        readers_in(after_all(w, events).bits) <= readers_in(w.bits),
    decreases events.len(),
{
    if events.len() > 0 {
        let before = events.drop_last();
        lemma_what_came_before_is_in_the_run(events);
        law_flag_stops_new_readers(w, before, id);
        law_every_run_keeps_the_lock_sound(w, before);
        let v = after_all(w, before);
        if let Event::ReaderOut(reader) = events.last() {
            assert(v.readers.dom().contains(reader));
            assert(v.readers.dom().len() > 0);
        }
    }
}

/// A reader that leaves brings a waiting writer one step nearer, and once the last one has left
/// nothing keeps the writer out.
pub proof fn law_writer_gets_in_when_readers_have_left<V>(w: World<V>, id: int)
    requires
        w.sound(),
        w.writer == Some((id, Phase::Waiting)),
    ensures
        forall|reader: int| #[trigger]
            w.readers.contains_key(reader) ==> readers_in(after(w, Event::ReaderOut(reader)).bits)
                == readers_in(w.bits) - 1,
        w.readers.dom().len() == 0 <==> can_happen(w, Event::WriterIn(id)),
{
    assert forall|reader: int| #[trigger] w.readers.contains_key(reader) implies readers_in(
        after(w, Event::ReaderOut(reader)).bits,
    ) == readers_in(w.bits) - 1 by {
        assert(w.readers.dom().contains(reader));
        assert(w.readers.dom().len() > 0);
    }
}

/// A reader that has left cannot come back while a writer keeps the flag.
proof fn lemma_who_left_stays_out<V>(w: World<V>, events: Seq<Event<V>>, id: int, reader: int)
    requires
        w.sound(),
        w.writer matches Some((owner, _)) && owner == id,
        can_run(w, events),
        !events.contains(Event::FlagBack(id)),
        !events.contains(Event::WriterOut(id)),
        events.contains(Event::ReaderOut(reader)),
    ensures
        !after_all(w, events).readers.contains_key(reader),
    decreases events.len(),
{
    let before = events.drop_last();
    lemma_what_came_before_is_in_the_run(events);
    law_flag_stops_new_readers(w, before, id);
    law_every_run_keeps_the_lock_sound(w, before);
    if events.last() != Event::<V>::ReaderOut(reader) {
        let i = choose|i: int|
            0 <= i < events.len() && events[i] == Event::<V>::ReaderOut(reader);
        assert(before[i] == Event::<V>::ReaderOut(reader));
        assert(before.contains(Event::ReaderOut(reader)));
        lemma_who_left_stays_out(w, before, id, reader);
    }
}

/// A steady stream of readers cannot starve a writer: once the readers that were inside when it
/// waited have each left, the writer can come in, whoever else has tried to in the meantime.
pub proof fn law_readers_cannot_starve_a_writer<V>(w: World<V>, events: Seq<Event<V>>, id: int)
    requires
        w.sound(),
        w.writer == Some((id, Phase::Waiting)),
        can_run(w, events),
        !events.contains(Event::FlagBack(id)),
        !events.contains(Event::WriterIn(id)),
        forall|reader: int| #[trigger]
            w.readers.contains_key(reader) ==> events.contains(Event::ReaderOut(reader)),
    ensures
        can_happen(after_all(w, events), Event::WriterIn(id)),
{
    lemma_waiting_writer_waits_on(w, events, id);
    let v = after_all(w, events);
    law_every_run_keeps_the_lock_sound(w, events);
    law_flag_stops_new_readers(w, events, id);
    assert forall|reader: int| !v.readers.dom().contains(reader) by {
        if v.readers.dom().contains(reader) {
            assert(w.readers.dom().contains(reader));
            assert(w.readers.contains_key(reader));
            lemma_who_left_stays_out(w, events, id, reader);
        }
    }
    assert(v.readers.dom() =~= Set::empty());
}

/// A waiting writer goes on waiting until it comes in or gives up, and the value stays as it is.
proof fn lemma_waiting_writer_waits_on<V>(w: World<V>, events: Seq<Event<V>>, id: int)
    requires
        w.sound(),
        w.writer == Some((id, Phase::Waiting)),
        can_run(w, events),
        !events.contains(Event::FlagBack(id)),
        !events.contains(Event::WriterIn(id)),
    ensures
        after_all(w, events).writer == Some((id, Phase::Waiting)),
        after_all(w, events).value == w.value,
        !events.contains(Event::WriterOut(id)),
    decreases events.len(),
{
    if events.len() > 0 {
        let before = events.drop_last();
        lemma_what_came_before_is_in_the_run(events);
        lemma_waiting_writer_waits_on(w, before, id);
        law_every_run_keeps_the_lock_sound(w, before);
        if events.contains(Event::WriterOut(id)) {
            let i = choose|i: int| 0 <= i < events.len() && events[i] == Event::<V>::WriterOut(id);
            if i < before.len() {
                assert(before[i] == Event::<V>::WriterOut(id));
            }
        }
    }
}

/// A writer that finds the word at zero is in as soon as its flag is up.
pub proof fn law_free_lock_is_taken_at_once<V>(w: World<V>, id: int)
    requires
        w.sound(),
        w.bits == 0,
    ensures
        can_happen(w, Event::FlagUp(id)),
        can_happen(after(w, Event::FlagUp(id)), Event::WriterIn(id)),
        after(after(w, Event::FlagUp(id)), Event::WriterIn(id)).writer_inside(),
{
}

/// A writer that leaves frees the lock. Clearing the whole word and putting the flag down are the
/// same there, since the count is zero.
pub proof fn law_leaving_writer_frees_the_lock<V>(w: World<V>, id: int)
    requires
        w.sound(),
        can_happen(w, Event::WriterOut(id)),
    ensures
        after(w, Event::WriterOut(id)).bits == 0,
        after(w, Event::WriterOut(id)).bits == lowered(w.bits),
        after(w, Event::WriterOut(id)).value == w.value,
        after(w, Event::WriterOut(id)).writer is None,
{
}

/// A reader that comes in and leaves puts everything back.
pub proof fn law_reader_leaves_no_trace<V>(w: World<V>, id: int)
    requires
        w.sound(),
        can_happen(w, Event::ReaderIn(id)),
    ensures
        can_happen(after(w, Event::ReaderIn(id)), Event::ReaderOut(id)),
        after(after(w, Event::ReaderIn(id)), Event::ReaderOut(id)).bits == w.bits,
        after(after(w, Event::ReaderIn(id)), Event::ReaderOut(id)).readers =~= w.readers,
        after(after(w, Event::ReaderIn(id)), Event::ReaderOut(id)).value == w.value,
        after(after(w, Event::ReaderIn(id)), Event::ReaderOut(id)).writer == w.writer,
{
}

/// A writer that gives up leaves no flag behind, and neither the value nor any reader notices.
pub proof fn law_giving_up_leaves_no_flag<V>(w: World<V>, id: int)
    requires
        w.sound(),
        can_happen(w, Event::FlagBack(id)),
    ensures
        !flagged(after(w, Event::FlagBack(id)).bits),
        readers_in(after(w, Event::FlagBack(id)).bits) == readers_in(w.bits),
        after(w, Event::FlagBack(id)).writer is None,
        after(w, Event::FlagBack(id)).readers == w.readers,
        after(w, Event::FlagBack(id)).value == w.value,
{
}

/// A writer that puts its flag up, meets readers and puts it down again leaves the lock as the
/// others have left it in the meantime: no flag, no new reader, and the value untouched.
pub proof fn law_failed_try_changes_nothing<V>(w: World<V>, meanwhile: Seq<Event<V>>, id: int)
    requires
        w.sound(),
        can_happen(w, Event::FlagUp(id)),
        can_run(after(w, Event::FlagUp(id)), meanwhile),
        !meanwhile.contains(Event::WriterIn(id)),
        !meanwhile.contains(Event::FlagBack(id)),
    ensures
        ({
            let met = after_all(after(w, Event::FlagUp(id)), meanwhile);
            let left = after(met, Event::FlagBack(id));
            &&& met.writer == Some((id, Phase::Waiting))
            &&& can_happen(met, Event::FlagBack(id))
            &&& left.writer is None
            &&& !flagged(left.bits)
            &&& left.value == w.value
            &&& left.readers == met.readers
            &&& left.readers.dom().subset_of(w.readers.dom())
        }),
{
    let up = after(w, Event::FlagUp(id));
    law_every_event_keeps_the_lock_sound(w, Event::FlagUp(id));
    law_every_run_keeps_the_lock_sound(up, meanwhile);
    lemma_waiting_writer_waits_on(up, meanwhile, id);
    law_flag_stops_new_readers(up, meanwhile, id);
    law_giving_up_leaves_no_flag(after_all(up, meanwhile), id);
}

/// What a look at the word tells is true at that moment: it is zero exactly if nobody is on the
/// lock, it is flagged exactly if a writer holds the lock or waits for it, and it counts the
/// readers inside.
pub proof fn law_the_word_tells_the_truth<V>(w: World<V>)
    requires
        w.sound(),
    ensures
        w.bits != 0 <==> (w.writer is Some || w.readers.dom().len() > 0),
        flagged(w.bits) <==> w.writer is Some,
        readers_in(w.bits) == w.readers.dom().len(),
{
}

/// When everybody has left, in whatever order, the lock is as free as a new one.
pub proof fn law_deserted_lock_is_free<V>(first: V, events: Seq<Event<V>>)
    requires
        can_run(fresh(first), events),
        after_all(fresh(first), events).writer is None,
        after_all(fresh(first), events).readers.dom().len() == 0,
    ensures
        after_all(fresh(first), events).bits == 0,
{
    law_every_run_keeps_the_lock_sound(fresh(first), events);
}

/// Taking a reader off never wraps around: the count of a sound lock covers every reader inside.
pub proof fn law_count_never_wraps<V>(w: World<V>, id: int)
    requires
        w.sound(),
        can_happen(w, Event::ReaderOut(id)),
    ensures
        w.bits >= READER,
        without_reader(w.bits) == w.bits - READER,
{
    assert(w.readers.dom().contains(id));
    assert(w.readers.dom().len() > 0);
}

/// What a writer makes of the word it found is true of the lock: it is the second writer exactly if
/// another one owns the flag, it is inside exactly if nobody was there, and it has to wait exactly if
/// only readers were.
pub proof fn law_verdict_is_true<V>(w: World<V>)
    requires
        w.sound(),
    ensures
        verdict_on(w.bits) == Verdict::SecondWriter <==> w.writer is Some,
        verdict_on(w.bits) == Verdict::Inside <==> w.writer is None && w.readers.dom().len() == 0,
        verdict_on(w.bits) == Verdict::ReadersInside <==> w.writer is None && w.readers.dom().len()
            > 0,
{
}

} // verus!
