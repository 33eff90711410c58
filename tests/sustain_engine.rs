use sustain::engine::SustainEngine;
use sustain::event::{NoteData, NoteEvent};

fn data(note: u8, timing: u32) -> NoteData {
    NoteData {
        timing,
        voice_id: Some(note as i32 + 1000),
        channel: 2,
        note,
        velocity_bits: 0.75f32.to_bits(),
    }
}

fn on(note: u8) -> NoteEvent {
    NoteEvent::NoteOn(data(note, 10))
}

fn off(note: u8) -> NoteEvent {
    NoteEvent::NoteOff(data(note, 20))
}

fn released(note: u8) -> NoteEvent {
    NoteEvent::NoteOff(data(note, 10))
}

#[test]
fn passthrough_when_sustain_never_engaged() {
    let mut e = SustainEngine::new();
    let blocks = vec![
        vec![on(60), on(64), NoteEvent::Other(7), off(60)],
        vec![on(60), off(64), off(60), off(99)],
        vec![],
        vec![on(0), on(255), off(255), off(0)],
    ];
    for block in &blocks {
        let out = e.process_block(false, block);
        assert_eq!(&out, block);
        assert!(!e.is_sustaining());
    }
}

#[test]
fn note_off_held_back_while_sustained() {
    let mut e = SustainEngine::new();
    assert_eq!(e.on_event(on(60)), Some(on(60)));
    let mut out = Vec::new();
    e.on_block_start(true, &mut out);
    assert!(out.is_empty());
    assert!(e.is_sustained(60));
    assert_eq!(e.on_event(off(60)), None);
    assert!(!e.is_held(60));
}

#[test]
fn release_sends_exactly_one_note_off() {
    let mut e = SustainEngine::new();
    e.process_block(false, &vec![on(60)]);
    e.process_block(true, &vec![off(60)]);
    let out = e.process_block(false, &vec![]);
    assert_eq!(out, vec![released(60)]);
    assert_eq!(out.iter().filter(|ev| matches!(ev, NoteEvent::NoteOff(d) if d.note == 60)).count(), 1);
    assert!(!e.is_held(60));
    assert!(!e.is_sustaining());
    assert_eq!(e.held_notes(), Vec::<u8>::new());
}

#[test]
fn engage_with_nothing_held() {
    let mut e = SustainEngine::new();
    let mut out = Vec::new();
    e.on_block_start(true, &mut out);
    assert!(out.is_empty());
    assert!(e.is_sustaining());
    assert_eq!(e.sustained_notes(), Some(vec![]));
}

#[test]
fn release_twice_sends_nothing_the_second_time() {
    let mut e = SustainEngine::new();
    e.process_block(false, &vec![on(60), on(62)]);
    e.process_block(true, &vec![]);
    let first = e.process_block(false, &vec![]);
    assert_eq!(first, vec![released(60), released(62)]);
    let second = e.process_block(false, &vec![]);
    assert!(second.is_empty());
    assert_eq!(e.held_notes(), Vec::<u8>::new());
    assert_eq!(e.sustained_notes(), None);
}

#[test]
fn retrigger_while_sustained() {
    let mut e = SustainEngine::new();
    e.process_block(false, &vec![on(60)]);
    e.process_block(true, &vec![off(60)]);
    let again = NoteEvent::NoteOn(data(60, 33));
    assert_eq!(e.process_block(true, &vec![again]), vec![again]);
    assert!(e.is_held(60));
    assert_eq!(e.process_block(true, &vec![off(60)]), vec![]);
    // the release is built from the note-on frozen when sustain engaged
    assert_eq!(e.process_block(false, &vec![]), vec![released(60)]);
    assert!(!e.is_held(60));
}

#[test]
fn two_notes_sustained_then_released_in_order() {
    let mut e = SustainEngine::new();
    let mut sent = Vec::new();
    sent.extend(e.process_block(false, &vec![on(60), on(64)]));
    sent.extend(e.process_block(true, &vec![off(60), on(67), off(67)]));
    assert_eq!(e.sustained_notes(), Some(vec![60, 64]));
    sent.extend(e.process_block(false, &vec![]));
    assert_eq!(
        sent,
        vec![on(60), on(64), on(67), off(67), released(60), released(64)]
    );
    assert_eq!(e.held_notes(), Vec::<u8>::new());
}

#[test]
fn two_notes_scenario_event_by_event() {
    let mut e = SustainEngine::new();
    assert_eq!(e.on_event(on(60)), Some(on(60)));
    assert_eq!(e.on_event(on(64)), Some(on(64)));
    let mut out = Vec::new();
    e.on_block_start(true, &mut out);
    assert!(out.is_empty());
    assert_eq!(e.on_event(off(60)), None);
    assert_eq!(e.on_event(on(67)), Some(on(67)));
    assert_eq!(e.on_event(off(67)), Some(off(67)));
    e.on_block_start(false, &mut out);
    assert_eq!(out, vec![released(60), released(64)]);
}

#[test]
fn release_comes_before_the_blocks_events() {
    let mut e = SustainEngine::new();
    e.process_block(false, &vec![on(72)]);
    e.process_block(true, &vec![]);
    let out = e.process_block(false, &vec![on(48), NoteEvent::Other(3)]);
    assert_eq!(out, vec![released(72), on(48), NoteEvent::Other(3)]);
    assert_eq!(e.held_notes(), vec![48]);
}

#[test]
fn released_note_off_carries_the_note_on_data() {
    let mut e = SustainEngine::new();
    let d = NoteData {
        timing: 5,
        voice_id: None,
        channel: 9,
        note: 36,
        velocity_bits: 0.25f32.to_bits(),
    };
    e.process_block(false, &vec![NoteEvent::NoteOn(d)]);
    e.process_block(true, &vec![]);
    assert_eq!(e.process_block(false, &vec![]), vec![NoteEvent::NoteOff(d)]);
}

#[test]
fn other_events_pass_while_sustained() {
    let mut e = SustainEngine::new();
    e.process_block(false, &vec![on(60)]);
    let out = e.process_block(true, &vec![NoteEvent::Other(1), NoteEvent::Other(2)]);
    assert_eq!(out, vec![NoteEvent::Other(1), NoteEvent::Other(2)]);
    assert_eq!(e.sustained_notes(), Some(vec![60]));
}

#[test]
fn note_struck_during_sustain_is_not_held_back() {
    let mut e = SustainEngine::new();
    e.process_block(true, &vec![]);
    assert_eq!(e.process_block(true, &vec![on(50), off(50)]), vec![on(50), off(50)]);
    assert_eq!(e.process_block(false, &vec![]), vec![]);
}

#[test]
fn engaging_again_keeps_the_first_snapshot() {
    let mut e = SustainEngine::new();
    e.process_block(false, &vec![on(60)]);
    e.process_block(true, &vec![on(62)]);
    e.process_block(true, &vec![]);
    assert_eq!(e.sustained_notes(), Some(vec![60]));
    assert!(!e.is_sustained(62));
    assert_eq!(e.process_block(true, &vec![off(62)]), vec![off(62)]);
}

#[test]
fn extreme_note_numbers() {
    let mut e = SustainEngine::new();
    e.process_block(false, &vec![on(0), on(127), on(255)]);
    assert_eq!(e.held_notes(), vec![0, 127, 255]);
    e.process_block(true, &vec![off(255), off(0)]);
    let out = e.process_block(false, &vec![]);
    assert_eq!(out, vec![released(0), released(127), released(255)]);
}

#[test]
fn note_off_without_note_on_is_forwarded() {
    let mut e = SustainEngine::new();
    e.process_block(true, &vec![]);
    assert_eq!(e.process_block(true, &vec![off(61)]), vec![off(61)]);
}

#[test]
fn reset_forgets_everything() {
    let mut e = SustainEngine::new();
    e.process_block(false, &vec![on(60), on(61)]);
    e.process_block(true, &vec![]);
    e.reset();
    assert!(!e.is_sustaining());
    assert_eq!(e.held_notes(), Vec::<u8>::new());
    assert_eq!(e.process_block(false, &vec![]), vec![]);
}

#[test]
fn on_block_start_appends_to_what_is_there() {
    let mut e = SustainEngine::new();
    e.process_block(false, &vec![on(40)]);
    let mut out = vec![NoteEvent::Other(9)];
    e.on_block_start(true, &mut out);
    assert_eq!(out, vec![NoteEvent::Other(9)]);
    e.on_block_start(false, &mut out);
    assert_eq!(out, vec![NoteEvent::Other(9), released(40)]);
}
