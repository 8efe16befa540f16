//! Remaps the Alt + Super + primary-button chord of a tiling compositor's input stream.
//!
//! `event` decodes and encodes the kernel's input-event records, `muxer` frames them for the
//! named-pipe channels and decides where each one goes, and `process` is the remapping engine.
//! `status` holds the plain values that the desktop's status bar shows.

pub mod bytes;
pub mod event;
pub mod muxer;
pub mod process;
pub mod status;
