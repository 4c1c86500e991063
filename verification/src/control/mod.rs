//! The control center: bluetooth devices, quick toggles, sliders and the
//! media section, as far as they read command output and decide.

pub mod bluetooth;
pub mod media;
pub mod sliders;
pub mod toggles;
pub mod press;
