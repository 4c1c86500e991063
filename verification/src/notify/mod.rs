//! The notification daemon: notifications, their storage, markup and the
//! decisions of the panel and popups.

pub mod config;
pub mod hints;
pub mod markup;
pub mod notification;
pub mod panel;
pub mod server;
pub mod popup;
pub mod daemon;
