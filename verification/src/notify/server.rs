//! What the D-Bus side of the daemon exchanges with the interface.

use vstd::prelude::*;
use crate::notify::notification::Notification;

verus! {

/// Events sent from D-Bus to the interface.
#[derive(Debug, Clone)]
pub enum NotificationEvent {
    /// A new notification was received.
    Notify(Notification),
    /// A request to close a notification.
    Close(u32),
    /// A capabilities query.
    GetCapabilities,
}

/// Events sent from the interface back to D-Bus, for signals.
#[derive(Debug, Clone)]
pub enum NotificationResponse {
    /// A notification was closed.
    Closed { id: u32, reason: u32 },
    /// An action was invoked.
    ActionInvoked { id: u32, action_key: String },
}

/// Close reason: the notification expired.
pub const CLOSE_EXPIRED: u32 = 1;

/// Close reason: the user dismissed it.
pub const CLOSE_DISMISSED: u32 = 2;

/// Close reason: a `CloseNotification` call closed it.
pub const CLOSE_CLOSED_BY_CALL: u32 = 3;

/// Close reason: undefined.
pub const CLOSE_UNDEFINED: u32 = 4;

/// The capabilities the server announces, in order.
pub open spec fn capabilities() -> Seq<Seq<char>> {
    seq![
        "actions"@,
        "body"@,
        "body-hyperlinks"@,
        "body-markup"@,
        "icon-static"@,
        "persistence"@,
        "action-icons"@,
    ]
}

/// The server's capabilities.
pub fn get_capabilities() -> (r: Vec<String>)
    ensures
        r@.len() == capabilities().len(),
        forall|i: int| 0 <= i < r@.len() ==> (#[trigger] r@[i])@ == capabilities()[i],
{
    let r = vec![
        "actions".to_string(),
        "body".to_string(),
        "body-hyperlinks".to_string(),
        "body-markup".to_string(),
        "icon-static".to_string(),
        "persistence".to_string(),
        "action-icons".to_string(),
    ];
    r
}

/// What `GetServerInformation` answers: the server's name, its vendor,
/// the given version of the program, and the version of the notification
/// specification it follows.
pub fn server_information(version: &str) -> (r: (String, String, String, String))
    ensures
        r.0@ == "rust-widgets"@,
        r.1@ == "vib1240n"@,
        r.2@ == version@,
        r.3@ == "1.2"@,
{
    ("rust-widgets".to_string(), "vib1240n".to_string(), version.to_string(), "1.2".to_string())
}

} // verus!
