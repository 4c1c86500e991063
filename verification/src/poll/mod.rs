//! What the system poller computes from the figures it reads: rates and
//! sizes as text, battery state, and which sensors and interfaces count.

pub mod battery;
pub mod cpu;
pub mod disk;
pub mod memory;
pub mod network;
pub mod thermal;
