//! Streaming decode of audio through the sox engine: the rules that turn the
//! engine's blocks of native samples into one sequence of normalised
//! single-precision samples.
//!
//! The engine itself is reached by the caller. This crate holds what is
//! decided and computed around it:
//!
//! - [`status`]: the engine's status codes;
//! - [`sample`]: the conversion of one native sample, exact to the bit, in
//!   the terms of [`binary32`];
//! - [`decoder`]: the decode protocol, from the open to the close, and
//!   [`trace`]: what holds of every decode;
//! - [`rawfile`]: the reading of raw sample files, as the `sox` command writes
//!   them.
//!
//! Samples are handed out as single-precision bit patterns, the argument of
//! `f32::from_bits`.

pub mod binary32;
pub mod decoder;
pub mod rawfile;
pub mod sample;
pub mod status;
pub mod trace;

pub use status::SoxErrorT;
