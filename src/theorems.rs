use vstd::prelude::*;
use crate::event::{NoteData, NoteEvent};
use crate::engine::{
    block_start, empty_table, event_step, is_sustained_in, process_block_spec, release_upto,
    run_events, table_wf, EngineState, NoteTable,
};

verus! {

/// The number of note-offs for note `n` in `evs`.
pub open spec fn count_note_offs(evs: Seq<NoteEvent>, n: u8) -> nat
    decreases evs.len(),
{
    if evs.len() == 0 {
        0
    } else {
        count_note_offs(evs.drop_last(), n) + if evs.last().is_note_off_for(n) {
            1nat
        } else {
            0nat
        }
    }
}

proof fn lemma_count_append(a: Seq<NoteEvent>, b: Seq<NoteEvent>, n: u8)
    ensures
        count_note_offs(a + b, n) == count_note_offs(a, n) + count_note_offs(b, n),
    decreases b.len(),
{
    if b.len() == 0 {
        assert(a + b =~= a);
    } else {
        assert((a + b).drop_last() =~= a + b.drop_last());
        lemma_count_append(a, b.drop_last(), n);
    }
}

proof fn lemma_release_upto_count(snap: NoteTable, k: int, n: u8)
    requires
        table_wf(snap),
        0 <= k <= snap.len(),
    ensures
        count_note_offs(release_upto(snap, k), n) == if (n as int) < k && snap[n as int] is Some {
            1nat
        } else {
            0nat
        },
    decreases k,
{
    if k > 0 {
        lemma_release_upto_count(snap, k - 1, n);
        let tail = match snap[k - 1] {
            Some(d) => seq![NoteEvent::NoteOff(d)],
            None => Seq::<NoteEvent>::empty(),
        };
        lemma_count_append(release_upto(snap, k - 1), tail, n);
        assert(count_note_offs(Seq::<NoteEvent>::empty(), n) == 0);
        if let Some(d) = snap[k - 1] {
            assert(d.note == k - 1);
            assert(tail.drop_last() =~= Seq::<NoteEvent>::empty());
            assert(count_note_offs(tail, n) == if n == d.note { 1nat } else { 0nat });
        } else {
            assert(tail =~= Seq::<NoteEvent>::empty());
        }
    }
}

/// One event step keeps the state well formed and leaves the snapshot alone.
pub proof fn lemma_event_step_wf(s: EngineState, e: NoteEvent)
    requires
        s.wf(),
    ensures
        event_step(s, e).0.wf(),
        event_step(s, e).0.snapshot == s.snapshot,
{
}

/// Taking in events keeps the state well formed and leaves the snapshot alone.
pub proof fn lemma_run_events_keeps_snapshot(s: EngineState, evs: Seq<NoteEvent>)
    requires
        s.wf(),
    ensures
        run_events(s, evs).0.wf(),
        run_events(s, evs).0.snapshot == s.snapshot,
    decreases evs.len(),
{
    if evs.len() > 0 {
        lemma_run_events_keeps_snapshot(s, evs.drop_last());
        lemma_event_step_wf(run_events(s, evs.drop_last()).0, evs.last());
    }
}

proof fn lemma_run_events_passthrough(s: EngineState, evs: Seq<NoteEvent>)
    requires
        s.wf(),
        s.snapshot is None,
    ensures
        run_events(s, evs).1 == evs,
    decreases evs.len(),
{
    if evs.len() > 0 {
        lemma_run_events_passthrough(s, evs.drop_last());
        lemma_run_events_keeps_snapshot(s, evs.drop_last());
        assert(evs.drop_last() + seq![evs.last()] =~= evs);
    }
}

/// With sustain off before and during a block, the block's output is exactly
/// its input, and sustain stays off.
pub proof fn lemma_passthrough_without_sustain(s: EngineState, evs: Seq<NoteEvent>)
    requires
        s.wf(),
        s.snapshot is None,
    ensures
        process_block_spec(s, false, evs).1 == evs,
        process_block_spec(s, false, evs).0.snapshot is None,
{
    lemma_run_events_passthrough(s, evs);
    lemma_run_events_keeps_snapshot(s, evs);
    assert(Seq::<NoteEvent>::empty() + evs =~= evs);
}

/// A note that was down when sustain engaged has its note-off held back, after
/// any events that come between.
pub proof fn lemma_note_off_held_back(s: EngineState, evs: Seq<NoteEvent>, off: NoteData)
    requires
        s.wf(),
        s.snapshot is None,
        s.held[off.note as int] is Some,
    ensures
        event_step(run_events(block_start(s, true).0, evs).0, NoteEvent::NoteOff(off)).1 is None,
{
    lemma_run_events_keeps_snapshot(block_start(s, true).0, evs);
}

/// Releasing sustain sends one note-off, and no more, for every note that was
/// frozen, whether or not its key went up meanwhile, and leaves that note no
/// longer held.
pub proof fn lemma_release_sends_one_note_off(s: EngineState, n: u8)
    requires
        s.wf(),
        is_sustained_in(s, n),
    ensures
        count_note_offs(block_start(s, false).1, n) == 1,
        block_start(s, false).0.held[n as int] is None,
        block_start(s, false).0.snapshot is None,
{
    let snap = s.snapshot->0;
    lemma_release_upto_count(snap, snap.len() as int, n);
}

/// A note down when sustain engaged, whose key goes up while sustain is on, is
/// released exactly once when sustain goes off, and is then no longer held.
pub proof fn lemma_sustained_note_released_once(
    s: EngineState,
    before: Seq<NoteEvent>,
    off: NoteData,
    after: Seq<NoteEvent>,
)
    requires
        s.wf(),
        s.snapshot is None,
        s.held[off.note as int] is Some,
    ensures
        ({
            let frozen = block_start(s, true).0;
            let s1 = run_events(frozen, before).0;
            let s2 = event_step(s1, NoteEvent::NoteOff(off)).0;
            let s3 = run_events(s2, after).0;
            &&& count_note_offs(block_start(s3, false).1, off.note) == 1
            &&& block_start(s3, false).0.held[off.note as int] is None
        }),
{
    let frozen = block_start(s, true).0;
    lemma_run_events_keeps_snapshot(frozen, before);
    let s1 = run_events(frozen, before).0;
    lemma_event_step_wf(s1, NoteEvent::NoteOff(off));
    let s2 = event_step(s1, NoteEvent::NoteOff(off)).0;
    lemma_run_events_keeps_snapshot(s2, after);
    lemma_release_sends_one_note_off(run_events(s2, after).0, off.note);
}

/// Engaging sustain with no note down sends nothing and freezes an empty
/// snapshot.
pub proof fn lemma_engage_with_nothing_held(s: EngineState)
    requires
        s.wf(),
        s.snapshot is None,
        s.held == empty_table(),
    ensures
        block_start(s, true).1 == Seq::<NoteEvent>::empty(),
        block_start(s, true).0.snapshot == Some(empty_table()),
{
}

/// Once sustain has been released, releasing it again sends nothing and
/// changes nothing.
pub proof fn lemma_release_is_idempotent(s: EngineState)
    requires
        s.wf(),
    ensures
        block_start(block_start(s, false).0, false) == (
        block_start(s, false).0,
        Seq::<NoteEvent>::empty(),
        ),
{
}

/// Striking again a note that is sustained forwards the new note-on, and a
/// later note-off for it, after any events between, is still held back.
pub proof fn lemma_retrigger_while_sustained(
    s: EngineState,
    on: NoteData,
    evs: Seq<NoteEvent>,
    off: NoteData,
)
    requires
        s.wf(),
        is_sustained_in(s, on.note),
        off.note == on.note,
    ensures
        event_step(s, NoteEvent::NoteOn(on)).1 == Some(NoteEvent::NoteOn(on)),
        event_step(
            run_events(event_step(s, NoteEvent::NoteOn(on)).0, evs).0,
            NoteEvent::NoteOff(off),
        ).1 is None,
{
    lemma_event_step_wf(s, NoteEvent::NoteOn(on));
    lemma_run_events_keeps_snapshot(event_step(s, NoteEvent::NoteOn(on)).0, evs);
}

} // verus!
