pub mod config;
pub mod position;
pub mod css;
pub mod motion;
pub mod instance;
