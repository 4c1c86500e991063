//! Verified core of a set of desktop widgets: parsing of command and file
//! output, text formatting, configuration defaults, notification storage
//! and widget management decisions.

pub mod text;
pub mod units;
pub mod order;
pub mod cli;
pub mod notify;
pub mod audio;
pub mod base;
pub mod control;
pub mod media;
pub mod osd;
pub mod poll;
pub mod stats;
