pub mod config;
pub mod message;
pub mod display;
