use vstd::prelude::*;

verus! {

/// The data that a note event carries.
///
/// The velocity is kept as the bit pattern of the host's single-precision
/// value: the engine never computes with it, it only carries it through.
#[derive(Clone, Copy, Debug, PartialEq, Eq, Structural)]
pub struct NoteData {
    /// Sample offset of the event within its processing block.
    pub timing: u32,
    /// The host's voice identifier, when it gave one.
    pub voice_id: Option<i32>,
    /// MIDI channel.
    pub channel: u8,
    /// MIDI note number.
    pub note: u8,
    /// Bit pattern of the velocity.
    pub velocity_bits: u32,
}

/// An event of the stream that the engine transforms.
#[derive(Clone, Copy, Debug, PartialEq, Eq, Structural)]
pub enum NoteEvent {
    NoteOn(NoteData),
    NoteOff(NoteData),
    /// Any other event (a controller, pressure, pitch bend, ...). The engine
    /// passes it on untouched; the payload is a handle chosen by the caller.
    Other(u64),
}

impl NoteEvent {
    /// Whether this event is a note-off for note `n`.
    pub open spec fn is_note_off_for(self, n: u8) -> bool {
        match self {
            NoteEvent::NoteOff(d) => d.note == n,
            _ => false,
        }
    }
}

} // verus!
