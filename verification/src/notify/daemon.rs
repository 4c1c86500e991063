//! The notification daemon's decisions: what each event from D-Bus, a
//! popup, the panel or a client command does to the history, the
//! do-not-disturb state and the panel, and what the interface must do.

use vstd::prelude::*;
use crate::notify::notification::{marked_read, Notification, NotificationStore, Urgency};
use crate::notify::popup::PopupAction;
use crate::text::{chars_of, str_eq, trim, trim_string};

verus! {

/// A command a client sends to the running daemon.
#[derive(Debug, Clone, Copy, PartialEq, Eq, Structural)]
pub enum Command {
    Toggle,
    Show,
    Hide,
    Dnd,
    Clear,
}

/// The command a word names.
pub open spec fn command_named(s: Seq<char>) -> Option<Command> {
    if s == "toggle"@ {
        Some(Command::Toggle)
    } else if s == "show"@ {
        Some(Command::Show)
    } else if s == "hide"@ {
        Some(Command::Hide)
    } else if s == "dnd"@ {
        Some(Command::Dnd)
    } else if s == "clear"@ {
        Some(Command::Clear)
    } else {
        None
    }
}

/// The command a word names, exactly as written.
pub fn command_of(word: &str) -> (r: Option<Command>)
    ensures
        r == command_named(word@),
{
    if str_eq(word, "toggle") {
        Some(Command::Toggle)
    } else if str_eq(word, "show") {
        Some(Command::Show)
    } else if str_eq(word, "hide") {
        Some(Command::Hide)
    } else if str_eq(word, "dnd") {
        Some(Command::Dnd)
    } else if str_eq(word, "clear") {
        Some(Command::Clear)
    } else {
        None
    }
}

/// The command in what a client wrote to the socket, spaces and line ends
/// around it ignored.
pub fn parse_command(message: &str) -> (r: Option<Command>)
    ensures
        r == command_named(trim(message@)),
{
    let t = trim_string(message);
    command_of(t.as_str())
}

/// The word a command is sent as.
pub open spec fn command_text(c: Command) -> Seq<char> {
    match c {
        Command::Toggle => "toggle"@,
        Command::Show => "show"@,
        Command::Hide => "hide"@,
        Command::Dnd => "dnd"@,
        Command::Clear => "clear"@,
    }
}

/// The word a command is sent as.
pub fn command_word(c: Command) -> (r: &'static str)
    ensures
        r@ == command_text(c),
{
    match c {
        Command::Toggle => "toggle",
        Command::Show => "show",
        Command::Hide => "hide",
        Command::Dnd => "dnd",
        Command::Clear => "clear",
    }
}

/// A command sent as its word is read back as the same command.
pub proof fn lemma_command_round_trip(c: Command)
    ensures
        command_named(command_text(c)) == Some(c),
{
    reveal_strlit("toggle");
    reveal_strlit("show");
    reveal_strlit("hide");
    reveal_strlit("dnd");
    reveal_strlit("clear");
    assert("show"@.len() != "toggle"@.len());
    assert("hide"@.len() != "toggle"@.len());
    assert("dnd"@.len() != "toggle"@.len());
    assert("clear"@.len() != "toggle"@.len());
    assert("hide"@[0] != "show"@[0]);
    assert("dnd"@.len() != "show"@.len());
    assert("clear"@.len() != "show"@.len());
    assert("dnd"@.len() != "hide"@.len());
    assert("clear"@.len() != "hide"@.len());
    assert("clear"@.len() != "dnd"@.len());
}

/// What the panel sends to the daemon.
#[derive(Debug, Clone)]
pub enum PanelAction {
    Close,
    ClearAll,
    DismissOne(u32),
    ActionInvoked(u32, String),
    ToggleDnd(bool),
    OpenSettings,
}

/// What happens to the panel window.
#[derive(Debug, Clone, Copy, PartialEq, Eq, Structural)]
pub enum PanelChange {
    Keep,
    Show,
    Hide,
}

/// What happens to the popups.
#[derive(Debug, Clone, Copy, PartialEq, Eq, Structural)]
pub enum PopupChange {
    Keep,
    /// Show a popup for the notification that came.
    Show,
    Dismiss(u32),
    DismissAll,
}

/// What the interface must do after an event.
#[derive(Debug, Clone, Copy, PartialEq, Eq, Structural)]
pub struct Effects {
    pub panel: PanelChange,
    /// Fill the panel again from the history.
    pub refresh_panel: bool,
    pub popup: PopupChange,
    /// Tell the panel the new do-not-disturb state.
    pub dnd_shown: Option<bool>,
}

/// The daemon: the history, do-not-disturb, and whether the panel is up.
pub struct Daemon {
    pub store: NotificationStore,
    dnd: bool,
    panel_visible: bool,
}

/// What the daemon is: the history, do-not-disturb, the panel's state.
pub struct DaemonView {
    pub history: Map<u32, Notification>,
    pub dnd: bool,
    pub panel_visible: bool,
}

/// The daemon after a client command.
pub open spec fn after_command(v: DaemonView, c: Command) -> DaemonView {
    match c {
        Command::Toggle => DaemonView { panel_visible: !v.panel_visible, ..v },
        Command::Show => DaemonView { panel_visible: true, ..v },
        Command::Hide => DaemonView { panel_visible: false, ..v },
        Command::Dnd => DaemonView { dnd: !v.dnd, ..v },
        Command::Clear => DaemonView { history: Map::empty(), ..v },
    }
}

/// What the interface does after a client command.
pub open spec fn command_effects(v: DaemonView, c: Command) -> Effects {
    match c {
        Command::Toggle => Effects {
            panel: if v.panel_visible { PanelChange::Hide } else { PanelChange::Show },
            refresh_panel: !v.panel_visible,
            popup: PopupChange::Keep,
            dnd_shown: None,
        },
        Command::Show => Effects { panel: PanelChange::Show, refresh_panel: true, popup: PopupChange::Keep, dnd_shown: None },
        Command::Hide => Effects { panel: PanelChange::Hide, refresh_panel: false, popup: PopupChange::Keep, dnd_shown: None },
        Command::Dnd => Effects { panel: PanelChange::Keep, refresh_panel: false, popup: PopupChange::Keep, dnd_shown: Some(!v.dnd) },
        Command::Clear => Effects {
            panel: PanelChange::Keep,
            refresh_panel: v.panel_visible,
            popup: PopupChange::DismissAll,
            dnd_shown: None,
        },
    }
}

/// A notification gets a popup unless do-not-disturb is on; a critical
/// one gets it anyway.
pub open spec fn shows_popup(dnd: bool, urgency: Urgency) -> bool {
    !dnd || urgency == Urgency::Critical
}

/// Nothing to do.
pub open spec fn no_effects() -> Effects {
    Effects { panel: PanelChange::Keep, refresh_panel: false, popup: PopupChange::Keep, dnd_shown: None }
}

fn effects(panel: PanelChange, refresh_panel: bool, popup: PopupChange, dnd_shown: Option<bool>) -> (r: Effects)
    ensures
        r == (Effects { panel, refresh_panel, popup, dnd_shown }),
{
    Effects { panel, refresh_panel, popup, dnd_shown }
}

impl Daemon {
    /// The history, do-not-disturb and the panel's state.
    pub closed spec fn view(&self) -> DaemonView {
        DaemonView { history: self.store@, dnd: self.dnd, panel_visible: self.panel_visible }
    }

    /// The daemon's history is a well-formed store.
    pub closed spec fn wf(&self) -> bool {
        self.store.wf()
    }

    /// The largest number of notifications kept.
    pub closed spec fn capacity(&self) -> nat {
        self.store.capacity()
    }

    /// A daemon with an empty history of the given capacity, the panel
    /// down, and do-not-disturb as configured.
    pub fn new(max_history: usize, dnd_enabled: bool) -> (r: Self)
        ensures
            r.wf(),
            r.view().history == Map::<u32, Notification>::empty(),
            r.view().dnd == dnd_enabled,
            !r.view().panel_visible,
            r.capacity() == max_history,
    {
        Daemon { store: NotificationStore::new(max_history), dnd: dnd_enabled, panel_visible: false }
    }

    /// Whether do-not-disturb is on.
    pub fn dnd(&self) -> (r: bool)
        ensures
            r == self.view().dnd,
    {
        self.dnd
    }

    /// Whether the panel is up.
    pub fn panel_visible(&self) -> (r: bool)
        ensures
            r == self.view().panel_visible,
    {
        self.panel_visible
    }

    /// A notification came from D-Bus: it goes into the history, gets a
    /// popup unless do-not-disturb holds it back, and the panel, when up,
    /// is filled again.
    pub fn on_notify(&mut self, notification: Notification) -> (r: Effects)
        requires
            old(self).wf(),
        ensures
            final(self).wf(),
            final(self).capacity() == old(self).capacity(),
            final(self).view().dnd == old(self).view().dnd,
            final(self).view().panel_visible == old(self).view().panel_visible,
            notification.transient ==> final(self).view().history == old(self).view().history,
            !notification.transient ==> crate::notify::notification::keeps_newest(
                old(self).view().history.insert(notification.id, notification),
                final(self).view().history,
                old(self).capacity(),
            ),
            r == (Effects {
                panel: PanelChange::Keep,
                refresh_panel: old(self).view().panel_visible,
                popup: if shows_popup(old(self).view().dnd, notification.urgency) { PopupChange::Show } else { PopupChange::Keep },
                dnd_shown: None,
            }),
    {
        let critical = match notification.urgency {
            Urgency::Critical => true,
            _ => false,
        };
        let show = !self.dnd || critical;
        self.store.insert(notification);
        effects(PanelChange::Keep, self.panel_visible, if show { PopupChange::Show } else { PopupChange::Keep }, None)
    }

    /// D-Bus asked to close a notification: its popup goes, it leaves the
    /// history, and the panel, when up, is filled again.
    pub fn on_close(&mut self, id: u32) -> (r: Effects)
        requires
            old(self).wf(),
        ensures
            final(self).wf(),
            final(self).capacity() == old(self).capacity(),
            final(self).view() == (DaemonView { history: old(self).view().history.remove(id), ..old(self).view() }),
            r == (Effects { panel: PanelChange::Keep, refresh_panel: old(self).view().panel_visible, popup: PopupChange::Dismiss(id), dnd_shown: None }),
    {
        let _ = self.store.remove(id);
        effects(PanelChange::Keep, self.panel_visible, PopupChange::Dismiss(id), None)
    }

    /// A popup reported back: one that went marks its notification read; a
    /// click brings the panel up, filled again.
    pub fn on_popup(&mut self, action: &PopupAction) -> (r: Effects)
        requires
            old(self).wf(),
        ensures
            final(self).wf(),
            final(self).capacity() == old(self).capacity(),
            *action matches PopupAction::Dismissed(id) ==> {
                &&& final(self).view() == (DaemonView {
                    history: if old(self).view().history.contains_key(id) {
                        old(self).view().history.insert(id, marked_read(old(self).view().history[id]))
                    } else {
                        old(self).view().history
                    },
                    ..old(self).view()
                })
                &&& r == no_effects()
            },
            *action matches PopupAction::ActionInvoked(_, _) ==> final(self).view() == old(self).view() && r == no_effects(),
            *action matches PopupAction::Clicked(_) ==> {
                &&& final(self).view() == (DaemonView { panel_visible: true, ..old(self).view() })
                &&& r == (Effects { panel: PanelChange::Show, refresh_panel: true, popup: PopupChange::Keep, dnd_shown: None })
            },
    {
        match action {
            PopupAction::Dismissed(id) => {
                match self.store.get_mut(*id) {
                    Some(n) => {
                        n.dismissed = true;
                    },
                    None => {},
                }
                effects(PanelChange::Keep, false, PopupChange::Keep, None)
            },
            PopupAction::ActionInvoked(_, _) => effects(PanelChange::Keep, false, PopupChange::Keep, None),
            PopupAction::Clicked(_) => {
                self.panel_visible = true;
                effects(PanelChange::Show, true, PopupChange::Keep, None)
            },
        }
    }

    /// The panel reported back.
    pub fn on_panel(&mut self, action: &PanelAction) -> (r: Effects)
        requires
            old(self).wf(),
        ensures
            final(self).wf(),
            final(self).capacity() == old(self).capacity(),
            *action matches PanelAction::Close ==> final(self).view() == (DaemonView { panel_visible: false, ..old(self).view() })
                && r == (Effects { panel: PanelChange::Hide, ..no_effects() }),
            *action matches PanelAction::ClearAll ==> final(self).view() == (DaemonView { history: Map::empty(), ..old(self).view() })
                && r == (Effects { refresh_panel: true, ..no_effects() }),
            *action matches PanelAction::DismissOne(id) ==> final(self).view() == (DaemonView { history: old(self).view().history.remove(id), ..old(self).view() })
                && r == (Effects { refresh_panel: true, ..no_effects() }),
            *action matches PanelAction::ActionInvoked(_, _) ==> final(self).view() == old(self).view() && r == no_effects(),
            *action matches PanelAction::ToggleDnd(on) ==> final(self).view() == (DaemonView { dnd: on, ..old(self).view() }) && r == no_effects(),
            *action matches PanelAction::OpenSettings ==> final(self).view() == old(self).view() && r == no_effects(),
    {
        match action {
            PanelAction::Close => {
                self.panel_visible = false;
                effects(PanelChange::Hide, false, PopupChange::Keep, None)
            },
            PanelAction::ClearAll => {
                self.store.clear_all();
                effects(PanelChange::Keep, true, PopupChange::Keep, None)
            },
            PanelAction::DismissOne(id) => {
                let _ = self.store.remove(*id);
                effects(PanelChange::Keep, true, PopupChange::Keep, None)
            },
            PanelAction::ActionInvoked(_, _) => effects(PanelChange::Keep, false, PopupChange::Keep, None),
            PanelAction::ToggleDnd(on) => {
                self.dnd = *on;
                effects(PanelChange::Keep, false, PopupChange::Keep, None)
            },
            PanelAction::OpenSettings => effects(PanelChange::Keep, false, PopupChange::Keep, None),
        }
    }

    /// A client command came through the socket.
    pub fn on_command(&mut self, c: Command) -> (r: Effects)
        requires
            old(self).wf(),
        ensures
            final(self).wf(),
            final(self).capacity() == old(self).capacity(),
            final(self).view() == after_command(old(self).view(), c),
            r == command_effects(old(self).view(), c),
    {
        match c {
            Command::Toggle => {
                self.panel_visible = !self.panel_visible;
                effects(
                    if self.panel_visible { PanelChange::Show } else { PanelChange::Hide },
                    self.panel_visible,
                    PopupChange::Keep,
                    None,
                )
            },
            Command::Show => {
                self.panel_visible = true;
                effects(PanelChange::Show, true, PopupChange::Keep, None)
            },
            Command::Hide => {
                self.panel_visible = false;
                effects(PanelChange::Hide, false, PopupChange::Keep, None)
            },
            Command::Dnd => {
                self.dnd = !self.dnd;
                effects(PanelChange::Keep, false, PopupChange::Keep, Some(self.dnd))
            },
            Command::Clear => {
                self.store.clear_all();
                effects(PanelChange::Keep, self.panel_visible, PopupChange::DismissAll, None)
            },
        }
    }
}

/// Sending `dnd` twice leaves the daemon as it was.
pub proof fn lemma_dnd_twice(v: DaemonView)
    ensures
        after_command(after_command(v, Command::Dnd), Command::Dnd) == v,
{
}

/// Sending `toggle` twice leaves the daemon as it was.
pub proof fn lemma_toggle_twice(v: DaemonView)
    ensures
        after_command(after_command(v, Command::Toggle), Command::Toggle) == v,
{
}

/// After `clear` the history is empty, the popups all go, and the panel,
/// when it is up, is filled again (now empty).
pub proof fn lemma_clear_empties(v: DaemonView)
    ensures
        after_command(v, Command::Clear).history == Map::<u32, Notification>::empty(),
        command_effects(v, Command::Clear).popup == PopupChange::DismissAll,
        command_effects(v, Command::Clear).refresh_panel == v.panel_visible,
        command_effects(v, Command::Clear).panel == PanelChange::Keep,
{
}

/// Whatever a client command does, a panel that is up after it, and that
/// either was down before or sees the history changed, is filled again;
/// a panel that is down after it is never filled.
pub proof fn lemma_command_refreshes_shown_panel(v: DaemonView, c: Command)
    ensures
        after_command(v, c).panel_visible && (after_command(v, c).history != v.history || !v.panel_visible)
            ==> command_effects(v, c).refresh_panel,
        !after_command(v, c).panel_visible ==> !command_effects(v, c).refresh_panel,
{
}

/// `show` and `hide` leave the panel up or down whatever it was, and a
/// repeat changes nothing.
pub proof fn lemma_show_hide_settle(v: DaemonView)
    ensures
        after_command(v, Command::Show).panel_visible,
        !after_command(v, Command::Hide).panel_visible,
        after_command(after_command(v, Command::Show), Command::Show) == after_command(v, Command::Show),
        after_command(after_command(v, Command::Hide), Command::Hide) == after_command(v, Command::Hide),
{
}

/// The words a client may send: the commands, written exactly.
pub fn is_client_command(arg: &str) -> (r: bool)
    ensures
        r == command_named(arg@) is Some,
{
    match command_of(arg) {
        Some(_) => true,
        None => false,
    }
}

} // verus!
