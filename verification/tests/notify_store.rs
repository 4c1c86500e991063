use rust_widgets::notify::daemon::{
    command_of, command_word, is_client_command, parse_command, Command, Daemon, Effects, PanelAction,
    PanelChange, PopupChange,
};
use rust_widgets::notify::notification::{
    epoch_parts, local_time_at, relative_time_text, ImageData, Notification, NotificationStore, Urgency,
};
use rust_widgets::notify::popup::{
    click_action, has_default_action, icon_source, image_fits, visible_actions, IconSource, PopupAction,
    PopupStack,
};

fn note(id: u32, timestamp: i128) -> Notification {
    let mut n = Notification::new(
        id,
        "app".to_string(),
        String::new(),
        format!("summary {}", id),
        String::new(),
    );
    n.timestamp = timestamp;
    n
}

#[test]
fn store_insert_then_get() {
    let mut store = NotificationStore::new(10);
    store.insert(note(7, 100));
    let got = store.get(7).expect("stored");
    assert_eq!(got.id, 7);
    assert_eq!(got.summary, "summary 7");
    assert!(store.get(8).is_none());
}

#[test]
fn store_transient_not_kept() {
    let mut store = NotificationStore::new(10);
    let mut n = note(1, 5);
    n.transient = true;
    store.insert(n);
    assert!(store.get(1).is_none());
    assert_eq!(store.all().len(), 0);
}

#[test]
fn store_prunes_oldest_beyond_capacity() {
    let mut store = NotificationStore::new(2);
    store.insert(note(1, 10));
    store.insert(note(2, 30));
    store.insert(note(3, 20));
    assert_eq!(store.all().len(), 2);
    assert!(store.get(1).is_none());
    assert!(store.get(2).is_some());
    assert!(store.get(3).is_some());
}

#[test]
fn store_replaces_same_id() {
    let mut store = NotificationStore::new(5);
    store.insert(note(4, 10));
    let mut again = note(4, 20);
    again.summary = "second".to_string();
    store.insert(again);
    assert_eq!(store.all().len(), 1);
    assert_eq!(store.get(4).unwrap().summary, "second");
}

#[test]
fn store_remove_then_absent() {
    let mut store = NotificationStore::new(5);
    store.insert(note(1, 10));
    let removed = store.remove(1).expect("was stored");
    assert_eq!(removed.id, 1);
    assert!(store.get(1).is_none());
    assert!(store.remove(1).is_none());
}

#[test]
fn store_all_newest_first() {
    let mut store = NotificationStore::new(10);
    store.insert(note(1, 10));
    store.insert(note(2, 30));
    store.insert(note(3, 20));
    let ids: Vec<u32> = store.all().iter().map(|n| n.id).collect();
    assert_eq!(ids, vec![2, 3, 1]);
}

#[test]
fn store_unread_and_mark_all_read() {
    let mut store = NotificationStore::new(10);
    store.insert(note(1, 10));
    store.insert(note(2, 20));
    store.insert(note(3, 30));
    assert_eq!(store.unread_count(), 3);
    store.get_mut(2).unwrap().dismissed = true;
    assert_eq!(store.unread_count(), 2);
    assert!(store.unread_count() <= store.all().len());
    store.mark_all_read();
    assert_eq!(store.unread_count(), 0);
    assert_eq!(store.all().len(), 3);
}

#[test]
fn store_clear_dismissed_keeps_unread() {
    let mut store = NotificationStore::new(10);
    store.insert(note(1, 10));
    store.insert(note(2, 20));
    store.get_mut(1).unwrap().dismissed = true;
    store.clear_dismissed();
    assert!(store.get(1).is_none());
    assert!(store.get(2).is_some());
    assert_eq!(store.unread_count(), 1);
    store.clear_all();
    assert_eq!(store.all().len(), 0);
}

#[test]
fn store_get_mut_missing_is_none() {
    let mut store = NotificationStore::new(3);
    assert!(store.get_mut(9).is_none());
}

#[test]
fn store_next_id_counts_up() {
    let mut store = NotificationStore::new(3);
    assert_eq!(store.next_id(), 1);
    assert_eq!(store.next_id(), 2);
    assert_eq!(store.next_id(), 3);
}

#[test]
fn relative_times() {
    assert_eq!(relative_time_text(0).as_deref(), Some("Just now"));
    assert_eq!(relative_time_text(59).as_deref(), Some("Just now"));
    assert_eq!(relative_time_text(60).as_deref(), Some("1 min ago"));
    assert_eq!(relative_time_text(150).as_deref(), Some("2 mins ago"));
    assert_eq!(relative_time_text(3600).as_deref(), Some("1 hour ago"));
    assert_eq!(relative_time_text(7300).as_deref(), Some("2 hours ago"));
    assert_eq!(relative_time_text(86400), None);
}

#[test]
fn time_ago_of_fresh_notification() {
    let n = Notification::new(1, "a".to_string(), String::new(), "s".to_string(), String::new());
    assert_eq!(n.time_ago(), "Just now");
    assert_eq!(n.time_ago_at(n.timestamp + 120_000_000_000).as_deref(), Some("2 mins ago"));
    assert_eq!(n.time_ago_at(n.timestamp + 59_999_999_999).as_deref(), Some("Just now"));
    assert_eq!(n.time_ago_at(n.timestamp + 60_000_000_000).as_deref(), Some("1 min ago"));
    assert_eq!(n.time_ago_at(n.timestamp - 5_000_000_000).as_deref(), Some("Just now"));
    assert_eq!(n.time_ago_at(n.timestamp + 86_400_000_000_000), None);
}

#[test]
fn time_ago_at_far_apart_instants() {
    let mut n = Notification::new(1, "a".to_string(), String::new(), "s".to_string(), String::new());
    n.timestamp = i128::MIN;
    assert_eq!(n.time_ago_at(i128::MAX), None);
    n.timestamp = i128::MAX;
    assert_eq!(n.time_ago_at(i128::MIN).as_deref(), Some("Just now"));
}

#[test]
fn time_ago_of_old_notification_is_a_date() {
    let mut n = Notification::new(1, "a".to_string(), String::new(), "s".to_string(), String::new());
    n.timestamp = 86_400_000_000_000 * 40;
    let t: Vec<char> = n.time_ago().chars().collect();
    assert_eq!(t.len(), 13);
    assert!(["Feb ", "Jan "].contains(&t[0..4].iter().collect::<String>().as_str()));
    assert_eq!(t[6], ',');
    assert_eq!(t[10], ':');
    assert!(t[4].is_ascii_digit() && t[5].is_ascii_digit());
    n.timestamp = -86_400_000_000_000 * 40 - 1;
    let t: Vec<char> = n.time_ago().chars().collect();
    assert_eq!(t.len(), 13);
    assert_eq!(t[10], ':');
}

#[test]
fn popup_stack_push_and_remove() {
    let mut stack = PopupStack::new(10, 8, 3);
    assert_eq!(stack.next_margin(), 10);
    assert_eq!(stack.offset(), 0);
    assert_eq!(stack.push(1, 50), 80);
    assert_eq!(stack.offset(), 88);
    assert_eq!(stack.next_margin(), 10 + 88);
    assert_eq!(stack.push(2, 120), 120);
    assert_eq!(stack.next_margin(), 10 + 88 + 128);
    assert_eq!(stack.ids(), vec![1, 2]);
    assert_eq!(stack.remove(1), Some(80));
    assert_eq!(stack.next_margin(), 10 + 128);
    assert_eq!(stack.remove(1), None);
    assert_eq!(stack.ids(), vec![2]);
}

#[test]
fn popup_remove_undoes_push() {
    let mut stack = PopupStack::new(10, 8, 5);
    stack.push(1, 90);
    let margin = stack.next_margin();
    stack.push(2, 100);
    stack.remove(2);
    assert_eq!(stack.next_margin(), margin);
    assert_eq!(stack.ids(), vec![1]);
}

#[test]
fn popup_offset_never_negative() {
    let mut stack = PopupStack::new(0, 8, 5);
    stack.push(1, 90);
    stack.push(1, 200);
    assert_eq!(stack.len(), 1);
    stack.remove(1);
    assert_eq!(stack.next_margin(), 98 + 208 - 208);
    stack.push(3, 80);
    stack.remove(3);
    assert!(stack.next_margin() >= 0);
}

#[test]
fn popup_evicts_oldest_when_full() {
    let mut stack = PopupStack::new(10, 8, 2);
    assert_eq!(stack.to_evict(), None);
    stack.push(5, 80);
    assert_eq!(stack.to_evict(), None);
    stack.push(6, 80);
    assert_eq!(stack.to_evict(), Some(5));
}

#[test]
fn popup_click_and_actions() {
    let mut n = note(3, 1);
    assert!(matches!(click_action(&n), PopupAction::Clicked(3)));
    n.actions = vec![
        ("default".to_string(), "Open".to_string()),
        ("reply".to_string(), "Reply".to_string()),
    ];
    assert!(has_default_action(&n.actions));
    match click_action(&n) {
        PopupAction::ActionInvoked(id, key) => {
            assert_eq!(id, 3);
            assert_eq!(key, "default");
        }
        other => panic!("unexpected {:?}", other),
    }
    assert_eq!(visible_actions(&n.actions), vec![("reply".to_string(), "Reply".to_string())]);
}

#[test]
fn popup_icon_sources() {
    assert_eq!(icon_source(""), IconSource::Nothing);
    assert_eq!(icon_source("/usr/share/icons/a.png"), IconSource::File);
    assert_eq!(icon_source("firefox"), IconSource::Named);
}

#[test]
fn popup_image_fits() {
    let good = ImageData { width: 2, height: 2, rowstride: 8, has_alpha: true, bits_per_sample: 8, channels: 4, data: vec![0; 16] };
    assert!(image_fits(&good));
    let short = ImageData { data: vec![0; 15], ..good.clone() };
    assert!(!image_fits(&short));
    let empty = ImageData { width: 0, ..good.clone() };
    assert!(!image_fits(&empty));
    let huge = ImageData { height: 70_000, rowstride: 70_000, ..good.clone() };
    assert!(!image_fits(&huge));
}

#[test]
fn commands_parse() {
    assert_eq!(parse_command("toggle\n"), Some(Command::Toggle));
    assert_eq!(parse_command("  show "), Some(Command::Show));
    assert_eq!(parse_command("hide"), Some(Command::Hide));
    assert_eq!(parse_command("dnd"), Some(Command::Dnd));
    assert_eq!(parse_command("clear\r\n"), Some(Command::Clear));
    assert_eq!(parse_command("bogus"), None);
    assert_eq!(command_of(" show"), None);
    assert!(is_client_command("clear"));
    assert!(!is_client_command("list"));
    for c in [Command::Toggle, Command::Show, Command::Hide, Command::Dnd, Command::Clear] {
        assert_eq!(parse_command(command_word(c)), Some(c));
    }
}

#[test]
fn daemon_popup_respects_dnd() {
    let mut d = Daemon::new(10, false);
    let e = d.on_notify(note(1, 10));
    assert_eq!(e.popup, PopupChange::Show);
    assert!(!e.refresh_panel);
    let mut d = Daemon::new(10, true);
    let e = d.on_notify(note(2, 10));
    assert_eq!(e.popup, PopupChange::Keep);
    let mut critical = note(3, 11);
    critical.urgency = Urgency::Critical;
    let e = d.on_notify(critical);
    assert_eq!(e.popup, PopupChange::Show);
    assert!(d.store.get(2).is_some());
    assert!(d.store.get(3).is_some());
}

#[test]
fn daemon_commands() {
    let mut d = Daemon::new(10, false);
    let e = d.on_command(Command::Toggle);
    assert_eq!(e, Effects { panel: PanelChange::Show, refresh_panel: true, popup: PopupChange::Keep, dnd_shown: None });
    assert!(d.panel_visible());
    let e = d.on_command(Command::Toggle);
    assert_eq!(e.panel, PanelChange::Hide);
    assert!(!d.panel_visible());
    let e = d.on_command(Command::Dnd);
    assert_eq!(e.dnd_shown, Some(true));
    d.on_command(Command::Dnd);
    assert!(!d.dnd());
    d.on_notify(note(1, 1));
    let e = d.on_command(Command::Clear);
    assert_eq!(e.popup, PopupChange::DismissAll);
    assert!(d.store.get(1).is_none());
    d.on_command(Command::Show);
    d.on_command(Command::Show);
    assert!(d.panel_visible());
    d.on_command(Command::Hide);
    assert!(!d.panel_visible());
}

#[test]
fn daemon_popup_and_panel_events() {
    let mut d = Daemon::new(10, false);
    d.on_notify(note(1, 1));
    d.on_popup(&PopupAction::Dismissed(1));
    assert!(d.store.get(1).unwrap().dismissed);
    let e = d.on_popup(&PopupAction::Clicked(1));
    assert_eq!(e.panel, PanelChange::Show);
    assert!(d.panel_visible());
    let e = d.on_close(1);
    assert_eq!(e.popup, PopupChange::Dismiss(1));
    assert!(e.refresh_panel);
    assert!(d.store.get(1).is_none());
    d.on_panel(&PanelAction::ToggleDnd(true));
    assert!(d.dnd());
    d.on_notify(note(2, 2));
    d.on_panel(&PanelAction::DismissOne(2));
    assert!(d.store.get(2).is_none());
    let e = d.on_panel(&PanelAction::Close);
    assert_eq!(e.panel, PanelChange::Hide);
    assert!(!d.panel_visible());
}

#[test]
fn epoch_parts_round_down() {
    assert_eq!(epoch_parts(0), Some((0, 0)));
    assert_eq!(epoch_parts(2_500_000_000), Some((2, 500_000_000)));
    assert_eq!(epoch_parts(-1), Some((-1, 999_999_999)));
    assert_eq!(epoch_parts(-1_000_000_000), Some((-1, 0)));
    assert_eq!(epoch_parts(i128::MAX), None);
}

#[test]
fn local_time_at_given_offsets() {
    assert_eq!(local_time_at(0, 0).as_deref(), Some("Jan 01, 00:00"));
    assert_eq!(local_time_at(0, 3600).as_deref(), Some("Jan 01, 01:00"));
    assert_eq!(local_time_at(0, -60).as_deref(), Some("Dec 31, 23:59"));
    assert_eq!(local_time_at(86_400_000_000_000 * 40 + 90_000_000_000, 0).as_deref(), Some("Feb 10, 00:01"));
    assert_eq!(local_time_at(i128::MAX, 0), None);
    assert_eq!(local_time_at(8_210_266_876_799 * 1_000_000_000, 0).as_deref(), Some("Dec 31, 23:59"));
    assert_eq!(local_time_at(8_210_266_876_799 * 1_000_000_000, 1), None);
    assert_eq!(local_time_at(-8_334_601_228_800 * 1_000_000_000, 0).as_deref(), Some("Jan 01, 00:00"));
    assert_eq!(local_time_at(-8_334_601_228_800 * 1_000_000_000, -1), None);
}
