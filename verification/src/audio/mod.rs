//! The volume control's reading of `pactl` output and its choice of icons.

pub mod devices;
pub mod streams;
pub mod names;
pub mod levels;
