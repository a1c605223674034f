//! Verified control logic of a percussive drum voice: the stage machine of its
//! envelopes, the cursors of its resonator delay line, and its note handling.

pub mod delay_line;
pub mod envelope;
pub mod voice;
