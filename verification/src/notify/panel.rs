//! Decisions of the notification center panel: how a notification is
//! classed, which icon stands for it, what the header says, and which app
//! a click activates.

use vstd::prelude::*;
use crate::notify::notification::{Notification, Urgency};
use crate::notify::popup::has_default_action;
use crate::text::{contains, dec, ends_with, lowercase, push_dec, push_str, str_contains, str_ends_with, str_eq, to_lowercase};

verus! {

/// The kind of a notification, from the lower-cased app name and summary:
/// critical ones and failures are errors, finished builds successes, low
/// battery warnings.
pub open spec fn notification_kind(app: Seq<char>, summary: Seq<char>, urgency: Urgency) -> Seq<char> {
    if urgency == Urgency::Critical {
        "error"@
    } else if (contains(app, "vscode"@) || contains(app, "code"@) || contains(app, "build"@)) && (
    contains(summary, "success"@) || contains(summary, "completed"@) || contains(summary, "done"@)) {
        "success"@
    } else if (contains(app, "battery"@) || contains(app, "power"@)) && (contains(summary, "low"@)
        || contains(summary, "warning"@)) {
        "warning"@
    } else if contains(summary, "error"@) || contains(summary, "failed"@) || contains(summary, "failure"@) {
        "error"@
    } else if contains(app, "network"@) && contains(summary, "disconnect"@) {
        "error"@
    } else {
        "info"@
    }
}

/// The kind of a notification from its lower-cased app name and summary.
pub fn notification_kind_of(app_lower: &str, summary_lower: &str, urgency: Urgency) -> (r: String)
    ensures
        r@ == notification_kind(app_lower@, summary_lower@, urgency),
{
    let a = app_lower;
    let s = summary_lower;
    if urgency == Urgency::Critical {
        return "error".to_string();
    }
    if str_contains(a, "vscode") || str_contains(a, "code") || str_contains(a, "build") {
        if str_contains(s, "success") || str_contains(s, "completed") || str_contains(s, "done") {
            return "success".to_string();
        }
    }
    if str_contains(a, "battery") || str_contains(a, "power") {
        if str_contains(s, "low") || str_contains(s, "warning") {
            return "warning".to_string();
        }
    }
    if str_contains(s, "error") || str_contains(s, "failed") || str_contains(s, "failure") {
        return "error".to_string();
    }
    if str_contains(a, "network") && str_contains(s, "disconnect") {
        return "error".to_string();
    }
    "info".to_string()
}

/// The kind of a notification: `error`, `success`, `warning` or `info`.
pub fn get_notification_type(notification: &Notification) -> (r: String)
    ensures
        r@ == notification_kind(
            lowercase(notification.app_name@),
            lowercase(notification.summary@),
            notification.urgency,
        ),
{
    let app_lower = to_lowercase(notification.app_name.as_str());
    let summary_lower = to_lowercase(notification.summary.as_str());
    notification_kind_of(app_lower.as_str(), summary_lower.as_str(), notification.urgency)
}

/// The symbol that stands for a kind of notification.
pub open spec fn type_icon(kind: Seq<char>) -> Seq<char> {
    if kind == "success"@ {
        "checkmark.circle.fill"@
    } else if kind == "warning"@ {
        "exclamationmark.triangle.fill"@
    } else if kind == "error"@ {
        "xmark.circle.fill"@
    } else {
        "info.circle.fill"@
    }
}

/// The symbol name for a kind of notification.
pub fn get_type_icon(notif_type: &str) -> (r: &'static str)
    ensures
        r@ == type_icon(notif_type@),
{
    if str_eq(notif_type, "success") {
        "checkmark.circle.fill"
    } else if str_eq(notif_type, "warning") {
        "exclamationmark.triangle.fill"
    } else if str_eq(notif_type, "error") {
        "xmark.circle.fill"
    } else {
        "info.circle.fill"
    }
}

/// The themed icon used in place of a symbol that is not installed.
pub open spec fn fallback_icon(name: Seq<char>) -> Seq<char> {
    if name == "bell.fill"@ {
        "notification-symbolic"@
    } else if name == "gearshape.fill"@ {
        "emblem-system-symbolic"@
    } else if name == "trash.fill"@ {
        "user-trash-symbolic"@
    } else if name == "checkmark.circle.fill"@ {
        "emblem-ok-symbolic"@
    } else if name == "exclamationmark.triangle.fill"@ {
        "dialog-warning-symbolic"@
    } else if name == "xmark.circle.fill"@ {
        "dialog-error-symbolic"@
    } else if name == "info.circle.fill"@ {
        "dialog-information-symbolic"@
    } else if name == "message.fill"@ {
        "mail-unread-symbolic"@
    } else {
        "dialog-information-symbolic"@
    }
}

/// The themed icon for a symbol that is not installed.
pub fn symbol_fallback(name: &str) -> (r: &'static str)
    ensures
        r@ == fallback_icon(name@),
{
    if str_eq(name, "bell.fill") {
        "notification-symbolic"
    } else if str_eq(name, "gearshape.fill") {
        "emblem-system-symbolic"
    } else if str_eq(name, "trash.fill") {
        "user-trash-symbolic"
    } else if str_eq(name, "checkmark.circle.fill") {
        "emblem-ok-symbolic"
    } else if str_eq(name, "exclamationmark.triangle.fill") {
        "dialog-warning-symbolic"
    } else if str_eq(name, "xmark.circle.fill") {
        "dialog-error-symbolic"
    } else if str_eq(name, "info.circle.fill") {
        "dialog-information-symbolic"
    } else if str_eq(name, "message.fill") {
        "mail-unread-symbolic"
    } else {
        "dialog-information-symbolic"
    }
}

/// What the panel header says for `count` notifications.
pub open spec fn unread_text(count: nat) -> Seq<char> {
    if count == 1 {
        "1 unread"@
    } else {
        dec(count) + " unread"@
    }
}

/// The panel header's subtitle.
pub fn unread_subtitle(count: usize) -> (r: String)
    ensures
        r@ == unread_text(count as nat),
{
    if count == 1 {
        return "1 unread".to_string();
    }
    let mut t = String::new();
    push_dec(&mut t, count as u64);
    push_str(&mut t, " unread");
    t
}

/// The desktop entry a card click launches, from the notification's
/// desktop entry or else its app name: kept as it is when it ends with
/// `.desktop`, else lower-cased with `.desktop` added.
pub open spec fn desktop_id_for(entry: Seq<char>) -> Seq<char> {
    if ends_with(entry, ".desktop"@) {
        entry
    } else {
        lowercase(entry) + ".desktop"@
    }
}

/// The desktop entry id of an entry or app name.
pub fn desktop_id(entry: &str) -> (r: String)
    ensures
        r@ == desktop_id_for(entry@),
{
    if str_ends_with(entry, ".desktop") {
        entry.to_string()
    } else {
        let mut r = to_lowercase(entry);
        push_str(&mut r, ".desktop");
        r
    }
}

/// What a click on a notification's card in the panel does.
#[derive(Debug, Clone)]
pub enum CardClick {
    /// Invoke the notification's `default` action.
    InvokeDefault(u32),
    /// Launch the application with this desktop entry id.
    Launch(String),
}

/// A click on a card invokes the default action where there is one, else
/// launches the application by its desktop entry, or by its app name.
pub fn card_click(notification: &Notification) -> (r: CardClick)
    ensures
        (exists|k: int| 0 <= k < notification.actions@.len() && notification.actions@[k].0@ == "default"@) ==> r == CardClick::InvokeDefault(notification.id),
        !(exists|k: int| 0 <= k < notification.actions@.len() && notification.actions@[k].0@ == "default"@) ==> (r matches CardClick::Launch(d) && d@ == desktop_id_for(match notification.desktop_entry {
            Some(e) => e@,
            None => notification.app_name@,
        })),
{
    if has_default_action(&notification.actions) {
        CardClick::InvokeDefault(notification.id)
    } else {
        let d = match &notification.desktop_entry {
            Some(e) => desktop_id(e.as_str()),
            None => desktop_id(notification.app_name.as_str()),
        };
        CardClick::Launch(d)
    }
}

/// The footer with its buttons shows when the panel lists something.
pub fn footer_visible(count: usize) -> (r: bool)
    ensures
        r == (count > 0),
{
    count > 0
}

/// The files a symbol's picture is looked for in, in order: the user's
/// icon directory, then the system's.
pub fn symbol_files(name: &str) -> (r: (String, String))
    ensures
        r.0@ == "/home/vib1240n/.local/share/rw/icons/"@ + name@ + ".svg"@,
        r.1@ == "/usr/share/rw/icons/"@ + name@ + ".svg"@,
{
    let mut user = "/home/vib1240n/.local/share/rw/icons/".to_string();
    push_str(&mut user, name);
    push_str(&mut user, ".svg");
    let mut system = "/usr/share/rw/icons/".to_string();
    push_str(&mut system, name);
    push_str(&mut system, ".svg");
    (user, system)
}

} // verus!
