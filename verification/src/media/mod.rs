pub mod config;
pub mod players;
