//! Core logic of a software-defined GPS L1 C/A receiver: bit-field helpers,
//! Gold-code generation, LNAV parity and frame decoding, and the per-channel
//! state machine, with machine-checked contracts.

pub mod almanac;
pub mod bits;
pub mod channel;
pub mod code;
pub mod ephemeris;
pub mod lnav;
pub mod navigation;
pub mod receiver;
pub mod recording;
pub mod tracking;
