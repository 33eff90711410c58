use vstd::prelude::*;
use crate::event::{NoteData, NoteEvent};

verus! {

/// Number of slots of a note table: one per value of a note number.
pub const NOTE_SLOTS: usize = 256;

/// A note table: slot `k` holds the note-on data of note `k`, if that note is
/// in the table.
pub type NoteTable = Seq<Option<NoteData>>;

/// A table is well formed when it has one slot per note number and each entry
/// sits in the slot of its own note.
pub open spec fn table_wf(t: NoteTable) -> bool {
    &&& t.len() == NOTE_SLOTS
    &&& forall|k: int| 0 <= k < t.len() && (#[trigger] t[k]) is Some ==> t[k]->0.note == k
}

/// The table that holds no note.
pub open spec fn empty_table() -> NoteTable {
    Seq::new(NOTE_SLOTS as nat, |k: int| None)
}

/// The abstract state of the engine.
pub struct EngineState {
    /// The notes that are down: note-on forwarded, no note-off forwarded since.
    pub held: NoteTable,
    /// The copy of `held` taken when sustain engaged; `None` while sustain is off.
    pub snapshot: Option<NoteTable>,
}

impl EngineState {
    /// Both tables are well formed.
    pub open spec fn wf(self) -> bool {
        &&& table_wf(self.held)
        &&& self.snapshot matches Some(s) ==> table_wf(s)
    }
}

/// The state of a freshly made engine: no note down, sustain off.
pub open spec fn initial_state() -> EngineState {
    EngineState { held: empty_table(), snapshot: None }
}

/// The note-offs that releasing `snap` sends for the slots below `k`, in
/// ascending note order: one per note in those slots, built from the stored
/// note-on data.
pub open spec fn release_upto(snap: NoteTable, k: int) -> Seq<NoteEvent>
    decreases k,
{
    if k <= 0 {
        Seq::empty()
    } else {
        release_upto(snap, k - 1) + match snap[k - 1] {
            Some(d) => seq![NoteEvent::NoteOff(d)],
            None => Seq::empty(),
        }
    }
}

/// The note-offs that releasing `snap` sends.
pub open spec fn release_events(snap: NoteTable) -> Seq<NoteEvent> {
    release_upto(snap, snap.len() as int)
}

/// `held` once every note of `snap` has been taken out of it.
pub open spec fn release_held(held: NoteTable, snap: NoteTable) -> NoteTable {
    Seq::new(held.len(), |k: int| if snap[k] is Some { None } else { held[k] })
}

/// The reaction to the sustain flag at the start of a block: the next state
/// and the events sent.
///
/// Off to on freezes a copy of the held notes and sends nothing. On to off
/// sends a note-off for every frozen note, takes those notes out of `held`
/// and drops the snapshot. Anything else changes nothing.
pub open spec fn block_start(s: EngineState, sustain_active: bool) -> (EngineState, Seq<NoteEvent>) {
    match s.snapshot {
        None => if sustain_active {
            (EngineState { held: s.held, snapshot: Some(s.held) }, Seq::empty())
        } else {
            (s, Seq::empty())
        },
        Some(snap) => if sustain_active {
            (s, Seq::empty())
        } else {
            (EngineState { held: release_held(s.held, snap), snapshot: None }, release_events(snap))
        },
    }
}

/// Whether sustain is engaged and note `n` was down when it engaged.
pub open spec fn is_sustained_in(s: EngineState, n: u8) -> bool {
    s.snapshot matches Some(snap) && snap[n as int] is Some
}

/// The reaction to one incoming event: the next state and what is sent on.
///
/// A note-on is recorded as held and forwarded. A note-off takes the note out
/// of `held`; it is held back when the note is sustained, else forwarded.
/// Any other event is forwarded and changes nothing.
pub open spec fn event_step(s: EngineState, e: NoteEvent) -> (EngineState, Option<NoteEvent>) {
    match e {
        NoteEvent::NoteOn(d) => (
            EngineState { held: s.held.update(d.note as int, Some(d)), snapshot: s.snapshot },
            Some(e),
        ),
        NoteEvent::NoteOff(d) => (
            EngineState { held: s.held.update(d.note as int, None), snapshot: s.snapshot },
            if is_sustained_in(s, d.note) { None } else { Some(e) },
        ),
        NoteEvent::Other(_) => (s, Some(e)),
    }
}

/// The events that an optional event stands for.
pub open spec fn opt_events(o: Option<NoteEvent>) -> Seq<NoteEvent> {
    match o {
        Some(e) => seq![e],
        None => Seq::empty(),
    }
}

/// The reaction to a sequence of events, one after the other: the final state
/// and everything sent, in order.
pub open spec fn run_events(s: EngineState, evs: Seq<NoteEvent>) -> (EngineState, Seq<NoteEvent>)
    decreases evs.len(),
{
    if evs.len() == 0 {
        (s, Seq::empty())
    } else {
        let prev = run_events(s, evs.drop_last());
        let step = event_step(prev.0, evs.last());
        (step.0, prev.1 + opt_events(step.1))
    }
}

/// A whole block: the sustain flag is read first, then the events are taken
/// in order.
pub open spec fn process_block_spec(
    s: EngineState,
    sustain_active: bool,
    evs: Seq<NoteEvent>,
) -> (EngineState, Seq<NoteEvent>) {
    let start = block_start(s, sustain_active);
    let rest = run_events(start.0, evs);
    (rest.0, start.1 + rest.1)
}

/// The note numbers of the slots below `k` that hold a note, ascending.
pub open spec fn notes_upto(t: NoteTable, k: int) -> Seq<u8>
    decreases k,
{
    if k <= 0 {
        Seq::empty()
    } else {
        notes_upto(t, k - 1) + if t[k - 1] is Some {
            seq![(k - 1) as u8]
        } else {
            Seq::empty()
        }
    }
}

/// The note numbers that a table holds, ascending.
pub open spec fn table_notes(t: NoteTable) -> Seq<u8> {
    notes_upto(t, t.len() as int)
}

fn notes_of(t: &Vec<Option<NoteData>>) -> (r: Vec<u8>)
    requires
        t@.len() == NOTE_SLOTS,
    ensures
        r@ == table_notes(t@),
{
    let mut r: Vec<u8> = Vec::new();
    let mut k: usize = 0;
    while k < NOTE_SLOTS
        invariant
            k <= NOTE_SLOTS,
            t@.len() == NOTE_SLOTS,
            r@ == notes_upto(t@, k as int),
        decreases NOTE_SLOTS - k,
    {
        if t[k].is_some() {
            r.push(k as u8);
        }
        k += 1;
        assert(r@ =~= notes_upto(t@, k as int));
    }
    r
}

/// The sustain engine.
pub struct SustainEngine {
    held: Vec<Option<NoteData>>,
    snapshot: Option<Vec<Option<NoteData>>>,
}

impl View for SustainEngine {
    type V = EngineState;

    closed spec fn view(&self) -> EngineState {
        EngineState {
            held: self.held@,
            snapshot: match self.snapshot {
                Some(s) => Some(s@),
                None => None,
            },
        }
    }
}

fn copy_slots(t: &Vec<Option<NoteData>>) -> (r: Vec<Option<NoteData>>)
    ensures
        r@ == t@,
{
    let mut r: Vec<Option<NoteData>> = Vec::with_capacity(t.len());
    let mut k: usize = 0;
    while k < t.len()
        invariant
            k <= t.len(),
            r@ == t@.take(k as int),
        decreases t.len() - k,
    {
        r.push(t[k]);
        k += 1;
        assert(r@ =~= t@.take(k as int));
    }
    assert(r@ =~= t@);
    r
}

fn empty_slots() -> (r: Vec<Option<NoteData>>)
    ensures
        r@ == empty_table(),
{
    let mut r: Vec<Option<NoteData>> = Vec::with_capacity(NOTE_SLOTS);
    let mut k: usize = 0;
    while k < NOTE_SLOTS
        invariant
            k <= NOTE_SLOTS,
            r@ == Seq::new(k as nat, |i: int| None::<NoteData>),
        decreases NOTE_SLOTS - k,
    {
        r.push(None);
        k += 1;
        assert(r@ =~= Seq::new(k as nat, |i: int| None::<NoteData>));
    }
    assert(r@ =~= empty_table());
    r
}

impl SustainEngine {
    /// The engine's invariant: its abstract state is well formed.
    pub closed spec fn wf(&self) -> bool {
        self@.wf()
    }

    /// An engine with no note down and sustain off.
    pub fn new() -> (r: Self)
        ensures
            r.wf(),
            r@ == initial_state(),
    {
        SustainEngine { held: empty_slots(), snapshot: None }
    }

    /// Reacts to the sustain flag at the start of a block, appending the events
    /// to send to `out`.
    pub fn on_block_start(&mut self, sustain_active: bool, out: &mut Vec<NoteEvent>)
        requires
            old(self).wf(),
        ensures
            final(self).wf(),
            final(self)@ == block_start(old(self)@, sustain_active).0,
            final(out)@ == old(out)@ + block_start(old(self)@, sustain_active).1,
    {
        if sustain_active {
            if self.snapshot.is_none() {
                let frozen = copy_slots(&self.held);
                self.snapshot = Some(frozen);
            }
        } else {
            let taken = self.snapshot.take();
            match taken {
                Some(snap) => {
                    let ghost held0 = self.held@;
                    let ghost out0 = out@;
                    let mut k: usize = 0;
                    while k < NOTE_SLOTS
                        invariant
                            k <= NOTE_SLOTS,
                            snap@.len() == NOTE_SLOTS,
                            held0.len() == NOTE_SLOTS,
                            self.snapshot is None,
                            self.held@ == Seq::new(
                                NOTE_SLOTS as nat,
                                |i: int| if i < k && snap@[i] is Some { None } else { held0[i] },
                            ),
                            out@ == out0 + release_upto(snap@, k as int),
                        decreases NOTE_SLOTS - k,
                    {
                        match snap[k] {
                            Some(d) => {
                                out.push(NoteEvent::NoteOff(d));
                                self.held.set(k, None);
                            },
                            None => {},
                        }
                        k += 1;
                        assert(self.held@ =~= Seq::new(
                            NOTE_SLOTS as nat,
                            |i: int| if i < k && snap@[i] is Some { None } else { held0[i] },
                        ));
                        assert(out@ =~= out0 + release_upto(snap@, k as int));
                    }
                    assert(self.held@ =~= release_held(held0, snap@));
                },
                None => {},
            }
        }
    }

    /// Reacts to one incoming event, returning the event to send on, if any.
    pub fn on_event(&mut self, event: NoteEvent) -> (r: Option<NoteEvent>)
        requires
            old(self).wf(),
        ensures
            final(self).wf(),
            final(self)@ == event_step(old(self)@, event).0,
            r == event_step(old(self)@, event).1,
    {
        match event {
            NoteEvent::NoteOn(d) => {
                self.held.set(d.note as usize, Some(d));
                Some(event)
            },
            NoteEvent::NoteOff(d) => {
                let sustained = match &self.snapshot {
                    Some(snap) => snap[d.note as usize].is_some(),
                    None => false,
                };
                self.held.set(d.note as usize, None);
                if sustained {
                    None
                } else {
                    Some(event)
                }
            },
            NoteEvent::Other(_) => Some(event),
        }
    }

    /// Handles a whole block: first the sustain flag, then the block's events
    /// in arrival order. Returns everything to send, in order.
    pub fn process_block(&mut self, sustain_active: bool, events: &Vec<NoteEvent>) -> (r: Vec<
        NoteEvent,
    >)
        requires
            old(self).wf(),
        ensures
            final(self).wf(),
            final(self)@ == process_block_spec(old(self)@, sustain_active, events@).0,
            r@ == process_block_spec(old(self)@, sustain_active, events@).1,
    {
        let ghost s0 = self@;
        let mut out: Vec<NoteEvent> = Vec::new();
        self.on_block_start(sustain_active, &mut out);
        let ghost s1 = self@;
        let ghost out1 = out@;
        let mut i: usize = 0;
        while i < events.len()
            invariant
                i <= events.len(),
                self.wf(),
                s1 == block_start(s0, sustain_active).0,
                out1 == block_start(s0, sustain_active).1,
                self@ == run_events(s1, events@.take(i as int)).0,
                out@ == out1 + run_events(s1, events@.take(i as int)).1,
            decreases events.len() - i,
        {
            let sent = self.on_event(events[i]);
            match sent {
                Some(e) => out.push(e),
                None => {},
            }
            assert(events@.take(i + 1).drop_last() =~= events@.take(i as int));
            i += 1;
            assert(out@ =~= out1 + run_events(s1, events@.take(i as int)).1);
        }
        assert(events@.take(events.len() as int) =~= events@);
        out
    }

    /// Puts the engine back in its initial state: no note down, sustain off.
    pub fn reset(&mut self)
        ensures
            final(self).wf(),
            final(self)@ == initial_state(),
    {
        self.held = empty_slots();
        self.snapshot = None;
    }

    /// Whether note `note` is down: its note-on was forwarded and no note-off
    /// for it since.
    pub fn is_held(&self, note: u8) -> (r: bool)
        requires
            self.wf(),
        ensures
            r == self@.held[note as int] is Some,
    {
        self.held[note as usize].is_some()
    }

    /// Whether sustain is engaged.
    pub fn is_sustaining(&self) -> (r: bool)
        ensures
            r == self@.snapshot is Some,
    {
        self.snapshot.is_some()
    }

    /// Whether sustain is engaged and note `note` was down when it engaged.
    pub fn is_sustained(&self, note: u8) -> (r: bool)
        requires
            self.wf(),
        ensures
            r == is_sustained_in(self@, note),
    {
        match &self.snapshot {
            Some(snap) => snap[note as usize].is_some(),
            None => false,
        }
    }

    /// The notes that are down, ascending.
    pub fn held_notes(&self) -> (r: Vec<u8>)
        requires
            self.wf(),
        ensures
            r@ == table_notes(self@.held),
    {
        notes_of(&self.held)
    }

    /// The notes frozen when sustain engaged, ascending; `None` while sustain
    /// is off.
    pub fn sustained_notes(&self) -> (r: Option<Vec<u8>>)
        requires
            self.wf(),
        ensures
            match self@.snapshot {
                Some(snap) => r matches Some(v) && v@ == table_notes(snap),
                None => r is None,
            },
    {
        match &self.snapshot {
            Some(snap) => Some(notes_of(snap)),
            None => None,
        }
    }
}


} // verus!
