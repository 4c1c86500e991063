use rust_widgets::cli::{
    comm_matches, config_name, daemon_message, get_widget_info, get_widget_pid, hide_action, is_widget_running,
    list_line, reload_config, show_action, table_config_name, toggle_action, widgets, Reload, Step,
};
use rust_widgets::notify::daemon::{parse_command, Command};

#[test]
fn widget_info_by_name_and_alias() {
    let stats = get_widget_info("stats").expect("stats");
    assert_eq!(stats.binary, "rw-stats");
    assert!(!stats.is_daemon);
    assert!(stats.supports_sighup);
    assert_eq!(get_widget_info("stats-popup").unwrap().name, "stats");
    assert_eq!(get_widget_info("cc").unwrap().name, "control");
    assert_eq!(get_widget_info("control-center").unwrap().name, "control");
    assert_eq!(get_widget_info("volume-control").unwrap().name, "volume");
    let osd = get_widget_info("osd").unwrap();
    assert_eq!(osd.name, "volume-osd");
    assert_eq!(osd.socket_path, Some("/tmp/rw-volume-osd.sock"));
    assert!(osd.is_daemon && !osd.supports_sighup);
    assert_eq!(get_widget_info("nc").unwrap().binary, "rw-notifications");
    assert_eq!(get_widget_info("player").unwrap().name, "media");
    assert_eq!(get_widget_info("brightness-osd").unwrap().name, "brightness");
    assert_eq!(get_widget_info("power-menu").unwrap().name, "power");
    assert_eq!(get_widget_info("calendar").unwrap().binary, "rw-calendar");
    assert!(get_widget_info("nope").is_none());
    assert!(get_widget_info("Stats").is_none());
}

#[test]
fn widget_table() {
    let ws = widgets();
    assert_eq!(ws.len(), 9);
    let names: Vec<&str> = ws.iter().map(|w| w.name).collect();
    assert_eq!(names, vec!["stats", "control", "volume", "volume-osd", "notifications", "media", "brightness", "power", "calendar"]);
}

#[test]
fn comm_truncated_to_fifteen_bytes() {
    assert!(comm_matches("rw-stats\n", "rw-stats"));
    assert!(comm_matches("rw-notificatio\n", "rw-notifications") == false);
    assert!(comm_matches("rw-notification\n", "rw-notifications"));
    assert!(comm_matches("rw-notifications", "rw-notifications"));
    assert!(!comm_matches("rw-media", "rw-stats"));
}

fn procs(entries: &[(&str, &str)]) -> Vec<(String, String)> {
    entries.iter().map(|(a, b)| (a.to_string(), b.to_string())).collect()
}

#[test]
fn widget_pid_from_proc() {
    let ps = procs(&[("self", "rw-stats\n"), ("12", "bash\n"), ("40", "rw-notification\n"), ("41", "rw-stats\n")]);
    assert_eq!(get_widget_pid(&ps, "rw-stats"), Some(41));
    assert_eq!(get_widget_pid(&ps, "rw-notifications"), Some(40));
    assert_eq!(get_widget_pid(&ps, "rw-media"), None);
    assert!(is_widget_running(&ps, "rw-stats"));
    assert!(!is_widget_running(&ps, "rw-volume"));
}

#[test]
fn show_hide_toggle_decisions() {
    let stats = get_widget_info("stats").unwrap();
    let nc = get_widget_info("notifications").unwrap();
    assert_eq!(show_action(&stats, false), Step::Start);
    assert_eq!(show_action(&stats, true), Step::AlreadyRunning);
    assert_eq!(show_action(&nc, true), Step::Send(Command::Show));
    assert_eq!(show_action(&nc, false), Step::StartThenSend(Command::Show));
    assert_eq!(hide_action(&stats, true), Step::Stop);
    assert_eq!(hide_action(&nc, true), Step::Send(Command::Hide));
    assert_eq!(hide_action(&nc, false), Step::DaemonNotRunning);
    assert_eq!(toggle_action(&stats, true), Step::Stop);
    assert_eq!(toggle_action(&stats, false), Step::Start);
    assert_eq!(toggle_action(&nc, true), Step::Send(Command::Toggle));
    assert_eq!(toggle_action(&nc, false), Step::StartThenSend(Command::Toggle));
}

#[test]
fn daemon_messages_understood() {
    assert_eq!(daemon_message(Command::Show), "show\n");
    for c in [Command::Toggle, Command::Show, Command::Hide, Command::Dnd, Command::Clear] {
        assert_eq!(parse_command(&daemon_message(c)), Some(c));
    }
}

#[test]
fn reload_plans() {
    let mut pids = vec![None; 9];
    pids[0] = Some(100);
    pids[4] = Some(200);
    assert_eq!(reload_config(None, &pids), Some(vec![Reload::Hangup(0, 100), Reload::Restart(4)]));
    assert_eq!(reload_config(Some("stats".to_string()), &pids), Some(vec![Reload::Hangup(0, 100)]));
    assert_eq!(reload_config(Some("nc".to_string()), &pids), Some(vec![Reload::Restart(4)]));
    assert_eq!(reload_config(Some("media".to_string()), &pids), Some(vec![Reload::NotRunning(5)]));
    assert_eq!(reload_config(Some("bogus".to_string()), &pids), None);
    assert_eq!(reload_config(None, &vec![None; 9]), Some(vec![]));
}

#[test]
fn config_names() {
    assert_eq!(config_name("cc"), "control-center");
    assert_eq!(config_name("stats"), "stats-popup");
    assert_eq!(config_name("osd"), "volume-osd");
    assert_eq!(config_name("player"), "media-player");
    assert_eq!(config_name("nc"), "notification-center");
    assert_eq!(config_name("calendar"), "calendar");
    assert_eq!(table_config_name("volume"), "volume-control");
    assert_eq!(table_config_name("notifications"), "notifications");
    assert_eq!(table_config_name("volume-osd"), "volume-osd");
}

#[test]
fn list_lines() {
    let ws = widgets();
    assert_eq!(list_line(&ws[0], false), "  stats          - System stats popup (CPU, RAM, disk, battery, temps) ");
    assert_eq!(list_line(&ws[3], true), "  volume-osd     - Volume OSD (daemon) (daemon) \x1b[32m[running]\x1b[0m");
    for (w, running) in [(&ws[4], false), (&ws[8], true)] {
        let status = if running { "\x1b[32m[running]\x1b[0m" } else { "" };
        let tag = if w.is_daemon { " (daemon)" } else { "" };
        assert_eq!(list_line(w, running), format!("  {:<14} - {}{} {}", w.name, w.description, tag, status));
    }
}
