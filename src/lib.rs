//! A sustain-pedal engine for MIDI note streams.
//!
//! While sustain is engaged, note-off events for the notes that were down at
//! the moment it engaged are held back; when sustain is released, one note-off
//! is sent for each of those notes.
pub mod event;
pub mod engine;
pub mod theorems;
