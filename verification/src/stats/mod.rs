pub mod config;
pub mod view;
