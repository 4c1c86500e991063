//! The `rw` command's knowledge of the widgets and its decisions: which
//! widget a name means, whether it runs, and what showing, hiding,
//! toggling and reloading it take.

use vstd::prelude::*;
use vstd::utf8::{decode_utf8, encode_utf8, encode_utf8_decode_utf8, is_char_boundary};
use vstd::string::StringSliceAdditionalSpecFns;
use crate::notify::daemon::{command_named, command_text, command_word, lemma_command_round_trip, Command};
use crate::text::{is_ws, push_char, trim_end, trim_start, parse_u32, parse_unsigned, chars_of, push_str, str_eq, trim, trim_string};

verus! {

/// What the command knows of a widget.
#[derive(Debug, Clone, Copy)]
pub struct WidgetInfo {
    pub name: &'static str,
    pub binary: &'static str,
    pub description: &'static str,
    pub is_daemon: bool,
    pub socket_path: Option<&'static str>,
    /// Whether the widget reloads its configuration on SIGHUP.
    pub supports_sighup: bool,
}

/// The number of widgets.
pub open spec fn widget_count() -> nat {
    9
}

/// The name of widget `i`.
pub open spec fn widget_name(i: int) -> Seq<char> {
    if i == 0 { "stats"@ }
    else if i == 1 { "control"@ }
    else if i == 2 { "volume"@ }
    else if i == 3 { "volume-osd"@ }
    else if i == 4 { "notifications"@ }
    else if i == 5 { "media"@ }
    else if i == 6 { "brightness"@ }
    else if i == 7 { "power"@ }
    else { "calendar"@ }
}

/// The program of widget `i`.
pub open spec fn widget_binary(i: int) -> Seq<char> {
    if i == 0 { "rw-stats"@ }
    else if i == 1 { "rw-control"@ }
    else if i == 2 { "rw-volume"@ }
    else if i == 3 { "rw-volume-osd"@ }
    else if i == 4 { "rw-notifications"@ }
    else if i == 5 { "rw-media"@ }
    else if i == 6 { "rw-brightness"@ }
    else if i == 7 { "rw-power"@ }
    else { "rw-calendar"@ }
}

/// What `rw list` says widget `i` is.
pub open spec fn widget_description(i: int) -> Seq<char> {
    if i == 0 { "System stats popup (CPU, RAM, disk, battery, temps)"@ }
    else if i == 1 { "Control center (toggles, sliders, media, stats)"@ }
    else if i == 2 { "Volume control with app mixer"@ }
    else if i == 3 { "Volume OSD (daemon)"@ }
    else if i == 4 { "Notification center (daemon, replaces swaync)"@ }
    else if i == 5 { "Media player with album art and controls"@ }
    else if i == 6 { "Brightness OSD [not implemented]"@ }
    else if i == 7 { "Power menu [not implemented]"@ }
    else { "Calendar popup [not implemented]"@ }
}

/// Whether widget `i` is a daemon, which takes commands on a socket.
pub open spec fn widget_is_daemon(i: int) -> bool {
    i == 3 || i == 4 || i == 6
}

/// The socket of widget `i`, for the daemons.
pub open spec fn widget_socket(i: int) -> Option<Seq<char>> {
    if i == 3 { Some("/tmp/rw-volume-osd.sock"@) }
    else if i == 4 { Some("/tmp/rw-notifications.sock"@) }
    else if i == 6 { Some("/tmp/rw-brightness.sock"@) }
    else { None }
}

/// `w` is the entry of widget `i`: its name, program, description, kind
/// and socket, and SIGHUP support for all but the daemons.
pub open spec fn describes(w: WidgetInfo, i: int) -> bool {
    &&& w.name@ == widget_name(i)
    &&& w.binary@ == widget_binary(i)
    &&& w.description@ == widget_description(i)
    &&& w.is_daemon == widget_is_daemon(i)
    &&& (match w.socket_path {
        Some(p) => widget_socket(i) == Some(p@),
        None => widget_socket(i) is None,
    })
    &&& w.supports_sighup == !widget_is_daemon(i)
}

/// The entry of widget `i`.
pub fn widget_at(i: usize) -> (w: WidgetInfo)
    requires
        i < widget_count(),
    ensures
        describes(w, i as int),
{
    if i == 0 {
        WidgetInfo { name: "stats", binary: "rw-stats", description: "System stats popup (CPU, RAM, disk, battery, temps)", is_daemon: false, socket_path: None, supports_sighup: true }
    } else if i == 1 {
        WidgetInfo { name: "control", binary: "rw-control", description: "Control center (toggles, sliders, media, stats)", is_daemon: false, socket_path: None, supports_sighup: true }
    } else if i == 2 {
        WidgetInfo { name: "volume", binary: "rw-volume", description: "Volume control with app mixer", is_daemon: false, socket_path: None, supports_sighup: true }
    } else if i == 3 {
        WidgetInfo { name: "volume-osd", binary: "rw-volume-osd", description: "Volume OSD (daemon)", is_daemon: true, socket_path: Some("/tmp/rw-volume-osd.sock"), supports_sighup: false }
    } else if i == 4 {
        WidgetInfo { name: "notifications", binary: "rw-notifications", description: "Notification center (daemon, replaces swaync)", is_daemon: true, socket_path: Some("/tmp/rw-notifications.sock"), supports_sighup: false }
    } else if i == 5 {
        WidgetInfo { name: "media", binary: "rw-media", description: "Media player with album art and controls", is_daemon: false, socket_path: None, supports_sighup: true }
    } else if i == 6 {
        WidgetInfo { name: "brightness", binary: "rw-brightness", description: "Brightness OSD [not implemented]", is_daemon: true, socket_path: Some("/tmp/rw-brightness.sock"), supports_sighup: false }
    } else if i == 7 {
        WidgetInfo { name: "power", binary: "rw-power", description: "Power menu [not implemented]", is_daemon: false, socket_path: None, supports_sighup: true }
    } else {
        WidgetInfo { name: "calendar", binary: "rw-calendar", description: "Calendar popup [not implemented]", is_daemon: false, socket_path: None, supports_sighup: true }
    }
}

/// All widgets, in the order `rw list` shows them.
pub fn widgets() -> (r: Vec<WidgetInfo>)
    ensures
        r@.len() == widget_count(),
        forall|i: int| 0 <= i < r@.len() ==> describes(#[trigger] r@[i], i),
{
    let mut r: Vec<WidgetInfo> = Vec::new();
    let mut i: usize = 0;
    while i < 9
        invariant
            i <= 9,
            r@.len() == i,
            forall|k: int| 0 <= k < i ==> describes(#[trigger] r@[k], k),
        decreases 9 - i,
    {
        r.push(widget_at(i));
        i += 1;
    }
    r
}

/// The widget an alias stands for.
pub open spec fn alias_of(name: Seq<char>) -> Option<int> {
    if name == "stats-popup"@ { Some(0) }
    else if name == "control-center"@ || name == "cc"@ { Some(1) }
    else if name == "volume-control"@ { Some(2) }
    else if name == "osd"@ { Some(3) }
    else if name == "notification-center"@ || name == "nc"@ { Some(4) }
    else if name == "media-player"@ || name == "player"@ { Some(5) }
    else if name == "brightness-osd"@ { Some(6) }
    else if name == "power-menu"@ { Some(7) }
    else { None }
}

/// The widget a name means: the one of that name, else the one it is an
/// alias of.
pub open spec fn widget_index(name: Seq<char>) -> Option<int> {
    if exists|i: int| 0 <= i < widget_count() && widget_name(i) == name {
        Some(choose|i: int| 0 <= i < widget_count() && widget_name(i) == name)
    } else {
        alias_of(name)
    }
}

proof fn lemma_names_distinct()
    ensures
        forall|i: int, j: int| 0 <= i < widget_count() && 0 <= j < widget_count() && i != j ==> widget_name(i) != widget_name(j),
{
    reveal_strlit("stats");
    reveal_strlit("control");
    reveal_strlit("volume");
    reveal_strlit("volume-osd");
    reveal_strlit("notifications");
    reveal_strlit("media");
    reveal_strlit("brightness");
    reveal_strlit("power");
    reveal_strlit("calendar");
    assert forall|i: int, j: int| 0 <= i < widget_count() && 0 <= j < widget_count() && i != j implies widget_name(i) != widget_name(j) by {
        if widget_name(i).len() == widget_name(j).len() {
            assert(widget_name(i)[0] != widget_name(j)[0] || widget_name(i)[1] != widget_name(j)[1]);
        }
    }
}

fn index_named(name: &str) -> (r: Option<usize>)
    ensures
        r matches Some(i) ==> i < widget_count() && widget_name(i as int) == name@,
        r is None ==> forall|i: int| 0 <= i < widget_count() ==> widget_name(i) != name@,
{
    let mut i: usize = 0;
    while i < 9
        invariant
            i <= 9,
            forall|k: int| 0 <= k < i ==> widget_name(k) != name@,
        decreases 9 - i,
    {
        let w = widget_at(i);
        if str_eq(w.name, name) {
            return Some(i);
        }
        i += 1;
    }
    None
}

fn alias_index(name: &str) -> (r: Option<usize>)
    ensures
        r matches Some(i) ==> alias_of(name@) == Some(i as int),
        r is None ==> alias_of(name@) is None,
{
    if str_eq(name, "stats-popup") { Some(0) }
    else if str_eq(name, "control-center") || str_eq(name, "cc") { Some(1) }
    else if str_eq(name, "volume-control") { Some(2) }
    else if str_eq(name, "osd") { Some(3) }
    else if str_eq(name, "notification-center") || str_eq(name, "nc") { Some(4) }
    else if str_eq(name, "media-player") || str_eq(name, "player") { Some(5) }
    else if str_eq(name, "brightness-osd") { Some(6) }
    else if str_eq(name, "power-menu") { Some(7) }
    else { None }
}

/// Where in the table the widget a name means stands.
pub fn widget_position(widget: &str) -> (r: Option<usize>)
    ensures
        r matches Some(i) ==> widget_index(widget@) == Some(i as int) && i < widget_count(),
        r is None ==> widget_index(widget@) is None,
{
    proof {
        lemma_names_distinct();
    }
    match index_named(widget) {
        Some(i) => Some(i),
        None => alias_index(widget),
    }
}

/// The widget a name means, by its own name or an alias.
pub fn get_widget_info(widget: &str) -> (r: Option<WidgetInfo>)
    ensures
        r matches Some(w) ==> (widget_index(widget@) matches Some(i) && describes(w, i)),
        r is None ==> widget_index(widget@) is None,
{
    match widget_position(widget) {
        Some(i) => Some(widget_at(i)),
        None => None,
    }
}

/// What `/proc/<pid>/comm` holds for a program: its name, cut to its first
/// 15 bytes when longer, as Linux keeps it.
pub open spec fn comm_name(binary: Seq<char>) -> Seq<char> {
    if encode_utf8(binary).len() > 15 {
        decode_utf8(encode_utf8(binary).subrange(0, 15))
    } else {
        binary
    }
}

/// Whether a process whose `comm` file reads `comm` runs the program: the
/// trimmed text is the program's name, or that name cut to 15 bytes.
pub open spec fn runs_program(comm: Seq<char>, binary: Seq<char>) -> bool {
    trim(comm) == binary || trim(comm) == comm_name(binary)
}

fn short_name(binary: &str) -> (r: &str)
    requires
        encode_utf8(binary@).len() <= usize::MAX,
        encode_utf8(binary@).len() > 15 ==> is_char_boundary(encode_utf8(binary@), 15),
    ensures
        r@ == comm_name(binary@),
{
    if binary.len() > 15 {
        let (a, _) = binary.split_at(15);
        proof {
            encode_utf8_decode_utf8(a@);
            assert(a.spec_bytes() == encode_utf8(a@));
            assert(binary.spec_bytes() == encode_utf8(binary@));
            assert(encode_utf8(a@) =~= encode_utf8(binary@).subrange(0, 15));
        }
        a
    } else {
        binary
    }
}

/// Whether the `comm` text of a process names the program. A program
/// name over 15 bytes must have a character boundary at 15.
pub fn comm_matches(comm: &str, binary: &str) -> (r: bool)
    requires
        encode_utf8(binary@).len() <= usize::MAX,
        encode_utf8(binary@).len() > 15 ==> is_char_boundary(encode_utf8(binary@), 15),
    ensures
        r == runs_program(comm@, binary@),
{
    let t = trim_string(comm);
    let short = short_name(binary);
    str_eq(t.as_str(), binary) || str_eq(t.as_str(), short)
}

/// The pid of the first process in `procs` (the entries of `/proc`, as
/// pairs of entry name and the text of its `comm` file, in the order they
/// were read) that runs the program. Entries whose name is not a number
/// are passed over.
pub open spec fn first_pid(procs: Seq<(Seq<char>, Seq<char>)>, binary: Seq<char>) -> Option<nat>
    decreases procs.len(),
{
    if procs.len() == 0 {
        None
    } else {
        match parse_unsigned(procs[0].0, u32::MAX as nat) {
            Some(pid) => if runs_program(procs[0].1, binary) {
                Some(pid)
            } else {
                first_pid(procs.drop_first(), binary)
            },
            None => first_pid(procs.drop_first(), binary),
        }
    }
}

/// The entries of `/proc` as pairs of views.
pub open spec fn proc_views(procs: Seq<(String, String)>) -> Seq<(Seq<char>, Seq<char>)> {
    procs.map_values(|p: (String, String)| (p.0@, p.1@))
}

/// The pid of the process that runs the program, from the entries of
/// `/proc` and their `comm` texts.
pub fn get_widget_pid(procs: &Vec<(String, String)>, binary: &str) -> (r: Option<u32>)
    requires
        encode_utf8(binary@).len() <= usize::MAX,
        encode_utf8(binary@).len() > 15 ==> is_char_boundary(encode_utf8(binary@), 15),
    ensures
        r matches Some(p) ==> first_pid(proc_views(procs@), binary@) == Some(p as nat),
        r is None ==> first_pid(proc_views(procs@), binary@) is None,
{
    let ghost pv = proc_views(procs@);
    let mut i: usize = 0;
    assert(pv.skip(0) =~= pv);
    while i < procs.len()
        invariant
            i <= procs@.len(),
            pv == proc_views(procs@),
            encode_utf8(binary@).len() <= usize::MAX,
            encode_utf8(binary@).len() > 15 ==> is_char_boundary(encode_utf8(binary@), 15),
            first_pid(pv.skip(i as int), binary@) == first_pid(pv, binary@),
        decreases procs@.len() - i,
    {
        let ghost rest = pv.skip(i as int);
        assert(rest[0] == (procs@[i as int].0@, procs@[i as int].1@));
        assert(rest.drop_first() =~= pv.skip(i + 1));
        let name = chars_of(procs[i].0.as_str());
        match parse_u32(name.as_slice()) {
            Some(pid) => {
                if comm_matches(procs[i].1.as_str(), binary) {
                    return Some(pid);
                }
            },
            None => {},
        }
        i += 1;
    }
    assert(pv.skip(i as int).len() == 0);
    None
}

/// Whether a process runs the program.
pub fn is_widget_running(procs: &Vec<(String, String)>, binary: &str) -> (r: bool)
    requires
        encode_utf8(binary@).len() <= usize::MAX,
        encode_utf8(binary@).len() > 15 ==> is_char_boundary(encode_utf8(binary@), 15),
    ensures
        r == first_pid(proc_views(procs@), binary@) is Some,
{
    match get_widget_pid(procs, binary) {
        Some(_) => true,
        None => false,
    }
}

/// What the command does to a widget.
#[derive(Debug, Clone, Copy, PartialEq, Eq, Structural)]
pub enum Step {
    /// Send a command to the running daemon.
    Send(Command),
    /// Start the daemon, wait for its socket, and send it a command.
    StartThenSend(Command),
    /// Start the widget.
    Start,
    /// Nothing: the widget runs already.
    AlreadyRunning,
    /// Stop the widget's process.
    Stop,
    /// Nothing: the daemon does not run.
    DaemonNotRunning,
}

/// `rw show`: a daemon is told to show itself, and started first when it
/// does not run; another widget is started unless it runs.
pub open spec fn show_step(is_daemon: bool, running: bool) -> Step {
    if is_daemon {
        if running { Step::Send(Command::Show) } else { Step::StartThenSend(Command::Show) }
    } else if running {
        Step::AlreadyRunning
    } else {
        Step::Start
    }
}

/// `rw hide`: a running daemon is told to hide; another widget is stopped.
pub open spec fn hide_step(is_daemon: bool, running: bool) -> Step {
    if is_daemon {
        if running { Step::Send(Command::Hide) } else { Step::DaemonNotRunning }
    } else {
        Step::Stop
    }
}

/// `rw toggle`: a daemon is told to toggle, started first when it does not
/// run; another widget is hidden when it runs and shown when not.
pub open spec fn toggle_step(is_daemon: bool, running: bool) -> Step {
    if is_daemon {
        if running { Step::Send(Command::Toggle) } else { Step::StartThenSend(Command::Toggle) }
    } else if running {
        hide_step(false, true)
    } else {
        show_step(false, false)
    }
}

/// What `rw show` does to a widget.
pub fn show_action(info: &WidgetInfo, running: bool) -> (r: Step)
    ensures
        r == show_step(info.is_daemon, running),
{
    if info.is_daemon {
        if running { Step::Send(Command::Show) } else { Step::StartThenSend(Command::Show) }
    } else if running {
        Step::AlreadyRunning
    } else {
        Step::Start
    }
}

/// What `rw hide` does to a widget.
pub fn hide_action(info: &WidgetInfo, running: bool) -> (r: Step)
    ensures
        r == hide_step(info.is_daemon, running),
{
    if info.is_daemon {
        if running { Step::Send(Command::Hide) } else { Step::DaemonNotRunning }
    } else {
        Step::Stop
    }
}

/// What `rw toggle` does to a widget.
pub fn toggle_action(info: &WidgetInfo, running: bool) -> (r: Step)
    ensures
        r == toggle_step(info.is_daemon, running),
{
    if info.is_daemon {
        if running { Step::Send(Command::Toggle) } else { Step::StartThenSend(Command::Toggle) }
    } else if running {
        Step::Stop
    } else {
        Step::Start
    }
}

/// Toggling a widget that is not a daemon does what hiding it does when
/// it runs, and what showing it does when not.
pub proof fn lemma_toggle_is_hide_or_show(running: bool)
    ensures
        toggle_step(false, running) == (if running { hide_step(false, running) } else { show_step(false, running) }),
{
}

/// What a client writes to a daemon's socket for a command: its word and
/// a line end.
pub open spec fn message_text(c: Command) -> Seq<char> {
    command_text(c).push('\n')
}

/// The message for a command.
pub fn daemon_message(c: Command) -> (r: String)
    ensures
        r@ == message_text(c),
{
    let mut r = command_word(c).to_string();
    push_char(&mut r, '\n');
    r
}

proof fn lemma_trim_word_line(w: Seq<char>)
    requires
        w.len() > 0,
        forall|k: int| 0 <= k < w.len() ==> 'a' <= #[trigger] w[k] <= 'z',
    ensures
        trim(w.push('\n')) == w,
{
    let s = w.push('\n');
    assert(!is_ws(s[0]));
    assert(trim_start(s) == s);
    assert(s.drop_last() =~= w);
    assert(!is_ws(w.last()));
    assert(trim_end(s) == trim_end(w));
    assert(trim_end(w) == w);
}

/// The daemon reads back the command a client sends it.
pub proof fn lemma_message_understood(c: Command)
    ensures
        command_named(trim(message_text(c))) == Some(c),
{
    reveal_strlit("toggle");
    reveal_strlit("show");
    reveal_strlit("hide");
    reveal_strlit("dnd");
    reveal_strlit("clear");
    lemma_trim_word_line(command_text(c));
    lemma_command_round_trip(c);
}

/// What `rw reload` does to one widget.
#[derive(Debug, Clone, Copy, PartialEq, Eq, Structural)]
pub enum Reload {
    /// The widget at this place of the table does not run.
    NotRunning(usize),
    /// Restart it: daemons and widgets without SIGHUP support.
    Restart(usize),
    /// Send SIGHUP to this process.
    Hangup(usize, u32),
}

/// How widget `i`, whose process is `pid` (if it runs), is reloaded.
pub open spec fn reload_step(i: int, pid: Option<u32>) -> Reload {
    match pid {
        None => Reload::NotRunning(i as usize),
        Some(p) => if widget_is_daemon(i) { Reload::Restart(i as usize) } else { Reload::Hangup(i as usize, p) },
    }
}

/// `rw reload` without a widget: every running widget, in the table's
/// order, restarted or sent SIGHUP.
pub open spec fn reload_all_steps(pids: Seq<Option<u32>>) -> Seq<Reload>
    decreases pids.len(),
{
    if pids.len() == 0 {
        seq![]
    } else {
        let i = pids.len() - 1;
        let rest = reload_all_steps(pids.drop_last());
        match pids.last() {
            Some(p) => rest.push(reload_step(i, Some(p))),
            None => rest,
        }
    }
}

/// What `rw reload` does, from the widget named (if any) and the pid of
/// each widget of the table that runs. `None` for a name that means no
/// widget.
pub fn reload_config(widget: Option<String>, pids: &Vec<Option<u32>>) -> (r: Option<Vec<Reload>>)
    requires
        pids@.len() == widget_count(),
    ensures
        r is None <==> (widget matches Some(w) && widget_index(w@) is None),
        r matches Some(steps) ==> (steps@ == match widget {
            Some(w) => seq![reload_step(widget_index(w@)->0, pids@[widget_index(w@)->0])],
            None => reload_all_steps(pids@),
        }),
{
    match widget {
        Some(w) => match widget_position(w.as_str()) {
            Some(i) => {
                let step = match pids[i] {
                    None => Reload::NotRunning(i),
                    Some(p) => if widget_at(i).is_daemon { Reload::Restart(i) } else { Reload::Hangup(i, p) },
                };
                let mut v: Vec<Reload> = Vec::new();
                v.push(step);
                Some(v)
            },
            None => None,
        },
        None => {
            let mut v: Vec<Reload> = Vec::new();
            let mut i: usize = 0;
            while i < pids.len()
                invariant
                    i <= pids@.len(),
                    pids@.len() == widget_count(),
                    v@ == reload_all_steps(pids@.take(i as int)),
                decreases pids@.len() - i,
            {
                assert(pids@.take(i + 1).drop_last() =~= pids@.take(i as int));
                match pids[i] {
                    Some(p) => {
                        let step = if widget_at(i).is_daemon { Reload::Restart(i) } else { Reload::Hangup(i, p) };
                        v.push(step);
                    },
                    None => {},
                }
                i += 1;
            }
            assert(pids@.take(i as int) =~= pids@);
            Some(v)
        },
    }
}

/// The directory under `~/.config/rw` of the configuration of a widget
/// named on the command line; other names are used as they are.
pub open spec fn config_dir_name(w: Seq<char>) -> Seq<char> {
    if w == "stats"@ || w == "stats-popup"@ { "stats-popup"@ }
    else if w == "control"@ || w == "control-center"@ || w == "cc"@ { "control-center"@ }
    else if w == "volume"@ || w == "volume-control"@ { "volume-control"@ }
    else if w == "volume-osd"@ || w == "osd"@ { "volume-osd"@ }
    else if w == "notifications"@ || w == "notification-center"@ || w == "nc"@ { "notification-center"@ }
    else if w == "media"@ || w == "media-player"@ || w == "player"@ { "media-player"@ }
    else { w }
}

/// The configuration directory name for a widget named on the command line.
pub fn config_name(w: &str) -> (r: String)
    ensures
        r@ == config_dir_name(w@),
{
    if str_eq(w, "stats") || str_eq(w, "stats-popup") { "stats-popup".to_string() }
    else if str_eq(w, "control") || str_eq(w, "control-center") || str_eq(w, "cc") { "control-center".to_string() }
    else if str_eq(w, "volume") || str_eq(w, "volume-control") { "volume-control".to_string() }
    else if str_eq(w, "volume-osd") || str_eq(w, "osd") { "volume-osd".to_string() }
    else if str_eq(w, "notifications") || str_eq(w, "notification-center") || str_eq(w, "nc") { "notification-center".to_string() }
    else if str_eq(w, "media") || str_eq(w, "media-player") || str_eq(w, "player") { "media-player".to_string() }
    else { w.to_string() }
}

/// The configuration directory name of a widget of the table, as the list
/// of all configurations gives it: volume-osd and notifications keep their
/// own names there.
pub open spec fn table_dir_name(name: Seq<char>) -> Seq<char> {
    if name == "stats"@ { "stats-popup"@ }
    else if name == "control"@ { "control-center"@ }
    else if name == "volume"@ { "volume-control"@ }
    else if name == "media"@ { "media-player"@ }
    else { name }
}

/// The configuration directory name of a widget of the table.
pub fn table_config_name(name: &str) -> (r: String)
    ensures
        r@ == table_dir_name(name@),
{
    if str_eq(name, "stats") { "stats-popup".to_string() }
    else if str_eq(name, "control") { "control-center".to_string() }
    else if str_eq(name, "volume") { "volume-control".to_string() }
    else if str_eq(name, "media") { "media-player".to_string() }
    else { name.to_string() }
}

/// `s` padded with spaces to `width` characters, as `{:<width}` does.
pub open spec fn pad_right(s: Seq<char>, width: nat) -> Seq<char> {
    if s.len() >= width {
        s
    } else {
        s + Seq::new((width - s.len()) as nat, |i: int| ' ')
    }
}

/// A line of `rw list`: the name padded to 14, the description, a
/// `(daemon)` tag and a green `[running]` mark.
pub open spec fn list_text(w: WidgetInfo, running: bool) -> Seq<char> {
    "  "@ + pad_right(w.name@, 14) + " - "@ + w.description@
        + (if w.is_daemon { " (daemon)"@ } else { ""@ })
        + " "@
        + (if running { "\u{1b}[32m[running]\u{1b}[0m"@ } else { ""@ })
}

/// The line `rw list` prints for a widget.
pub fn list_line(w: &WidgetInfo, running: bool) -> (r: String)
    ensures
        r@ == list_text(*w, running),
{
    let mut r = "  ".to_string();
    push_str(&mut r, w.name);
    let n = chars_of(w.name).len();
    let mut k: usize = n;
    let ghost start = r@;
    while k < 14
        invariant
            n <= k <= 14 || (k == n && n >= 14),
            n == w.name@.len(),
            r@ == start + Seq::new((k - n) as nat, |i: int| ' '),
        decreases 14 - k,
    {
        let ghost before = r@;
        push_char(&mut r, ' ');
        assert(r@ =~= start + Seq::new((k + 1 - n) as nat, |i: int| ' '));
        k += 1;
    }
    proof {
        if n >= 14 {
            assert(r@ =~= start);
        }
        assert(r@ =~= "  "@ + pad_right(w.name@, 14));
    }
    push_str(&mut r, " - ");
    push_str(&mut r, w.description);
    if w.is_daemon {
        push_str(&mut r, " (daemon)");
    } else {
        push_str(&mut r, "");
    }
    push_str(&mut r, " ");
    if running {
        push_str(&mut r, "\u{1b}[32m[running]\u{1b}[0m");
    } else {
        push_str(&mut r, "");
    }
    proof {
        assert(r@ =~= list_text(*w, running));
    }
    r
}

} // verus!
