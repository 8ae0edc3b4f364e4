//! Reassembly of digitizer waveform frames into complete traces.
//!
//! Input records carry fixed-size frames (segments of a waveform); the
//! assembler stitches consecutive frames into one trace and the encoder
//! turns each finished trace into a physics-event record.

pub mod wire;
pub mod envelope;
pub mod frame;
pub mod trace;
pub mod assembler;
pub mod pipeline;
pub mod ring;
