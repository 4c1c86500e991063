use rust_widgets::audio::levels::{current_device_name, default_node, input_icon, muted_in, selector_icon};
use rust_widgets::audio::devices::AudioDevice;
use rust_widgets::audio::names::truncate_string;
use rust_widgets::audio::streams::get_app_icon;
use rust_widgets::base::css::{load_css, load_css_with_fallback, theme_path, CssSource};
use rust_widgets::base::instance::is_already_running;
use rust_widgets::base::motion::{
    closing_direction, is_last_frame, opening_direction, slide_in_start, slide_out_end, step_duration, Direction, Edge,
};
use rust_widgets::base::position::Position;
use rust_widgets::notify::panel::{card_click, desktop_id, footer_visible, get_notification_type, get_type_icon, unread_subtitle, CardClick};
use rust_widgets::notify::notification::{Notification, Urgency};
use rust_widgets::notify::server::{get_capabilities, server_information};
use rust_widgets::notify::hints::{build_notification, HintValue, IdSource};
use rust_widgets::notify::markup::{strip_panel_markup, strip_popup_markup};
use rust_widgets::order::{rank_order, ranked_order, str_lt};
use rust_widgets::osd::message::parse_volume_message;
use rust_widgets::poll::battery::{icon, minutes_remaining, parse_capacity, parse_status, percentage_str, time_str, BatteryStatus};
use rust_widgets::stats::view::{battery_line, shown_sensors};

fn strings(v: &[&str]) -> Vec<String> {
    v.iter().map(|s| s.to_string()).collect()
}

#[test]
fn order_of_strings() {
    assert!(str_lt("abc", "abd"));
    assert!(str_lt("ab", "abc"));
    assert!(!str_lt("abc", "abc"));
    assert!(!str_lt("b", "abc"));
    assert!(str_lt("", "a"));
    assert!(str_lt("Z", "a"));
    for (a, b) in [("é", "z"), ("apple", "Apple"), ("x1", "x10")] {
        assert_eq!(str_lt(a, b), a < b);
    }
}

#[test]
fn stable_orders() {
    let ranks = vec![2u8, 0, 2, 1, 0];
    assert_eq!(rank_order(&ranks), vec![1, 4, 3, 0, 2]);
    let names = strings(&["b", "z", "a", "q", "a"]);
    assert_eq!(ranked_order(&ranks, &names), vec![4, 1, 3, 2, 0]);
}

#[test]
fn osd_messages() {
    assert_eq!(parse_volume_message("volume:0.75\n"), Some(("0.75".to_string(), false)));
    assert_eq!(parse_volume_message(" volume:0.75:muted "), Some(("0.75".to_string(), true)));
    assert_eq!(parse_volume_message("volume:1.2:loud"), Some(("1.2".to_string(), false)));
    assert_eq!(parse_volume_message("volume:"), Some((String::new(), false)));
    assert_eq!(parse_volume_message("volume"), None);
    assert_eq!(parse_volume_message("brightness:0.5"), None);
}

#[test]
fn stats_temperature_rows() {
    let labels = strings(&["acpitz temp1", "coretemp Package id 0", "nvme Composite", "amdgpu edge", "coretemp Core 0"]);
    let wanted = strings(&["Package", "Core", "edge"]);
    assert_eq!(shown_sensors(&labels, &wanted, 4), vec![1, 3, 4]);
    assert_eq!(shown_sensors(&labels, &wanted, 2), vec![1, 3]);
    assert!(shown_sensors(&labels, &Vec::new(), 4).is_empty());
}

#[test]
fn stats_battery_line() {
    assert_eq!(battery_line(Some((80, BatteryStatus::Charging))), "80% (charging)");
    assert_eq!(battery_line(Some((100, BatteryStatus::Full))), "100% (full)");
    assert_eq!(battery_line(Some((42, BatteryStatus::Discharging))), "42%");
    assert_eq!(battery_line(None), "N/A");
}

#[test]
fn battery_readings() {
    assert_eq!(parse_status("Discharging\n"), BatteryStatus::Discharging);
    assert_eq!(parse_status("Not charging"), BatteryStatus::NotCharging);
    assert_eq!(parse_status("weird"), BatteryStatus::Unknown);
    assert_eq!(parse_capacity("87\n"), Some(87));
    assert_eq!(parse_capacity("300"), None);
    assert_eq!(minutes_remaining(BatteryStatus::Discharging, 30_000_000, 10_000_000, None), Some(180));
    assert_eq!(minutes_remaining(BatteryStatus::Charging, 30_000_000, 10_000_000, Some(50_000_000)), Some(120));
    assert_eq!(minutes_remaining(BatteryStatus::Discharging, 1, 0, None), None);
    assert_eq!(percentage_str(55), "55%");
    assert_eq!(time_str(Some(150)).as_deref(), Some("2h 30m"));
    assert_eq!(time_str(Some(45)).as_deref(), Some("45m"));
    assert_eq!(icon(BatteryStatus::Charging, 50), icon(BatteryStatus::Charging, 50));
}

#[test]
fn css_sources() {
    let both = load_css_with_fallback("window {}", Some("/home/u/.config/rw/style.css"), true);
    assert_eq!(both.len(), 2);
    assert!(matches!(&both[0], CssSource::Text(t) if t == "window {}"));
    assert!(matches!(&both[1], CssSource::File(p) if p == "/home/u/.config/rw/style.css"));
    assert_eq!(load_css_with_fallback("x", Some("/missing"), false).len(), 1);
    assert_eq!(load_css_with_fallback("x", None, true).len(), 1);
    assert!(load_css("/missing", false).is_none());
    assert_eq!(theme_path("nord"), "themes/nord.css");
}

#[test]
fn motion_directions() {
    assert_eq!(opening_direction("up", true), Direction::Up);
    assert_eq!(opening_direction("left", true), Direction::Left);
    assert_eq!(opening_direction("left", false), Direction::Down);
    assert_eq!(opening_direction("down", true), Direction::Down);
    assert_eq!(closing_direction("down", false), Direction::Up);
    assert_eq!(closing_direction("left", true), Direction::Left);
    assert_eq!(closing_direction("up", true), Direction::Down);
    assert_eq!(slide_in_start(Direction::Up), (Edge::Bottom, -400));
    assert_eq!(slide_out_end(Direction::Right), (Edge::Left, 400));
    assert_eq!(step_duration(300), 10);
    assert!(!is_last_frame(28));
    assert!(is_last_frame(29));
}

#[test]
fn single_instance() {
    let procs = vec![
        ("1".to_string(), "systemd\n".to_string()),
        ("50".to_string(), "rw-media\n".to_string()),
        ("net".to_string(), "rw-media\n".to_string()),
    ];
    assert!(!is_already_running(&procs, 50, "rw-media"));
    assert!(is_already_running(&procs, 51, "rw-media"));
    assert!(!is_already_running(&procs, 51, "rw-stats"));
    let daemon = vec![("812".to_string(), "rw-notification\n".to_string())];
    assert!(is_already_running(&daemon, 900, "rw-notifications"));
    assert!(!is_already_running(&daemon, 812, "rw-notifications"));
    let accented = vec![("9".to_string(), "rw-notification\n".to_string())];
    assert!(is_already_running(&accented, 1, "rw-notification\u{e9}s"));
    let short = vec![("9".to_string(), "rw-notificatio\n".to_string())];
    assert!(!is_already_running(&short, 1, "rw-notifications"));
}

#[test]
fn audio_levels_and_names() {
    assert!(muted_in("Volume: 0.40 [MUTED]\n"));
    assert!(!muted_in("Volume: 0.40\n"));
    assert_eq!(default_node(true), "@DEFAULT_AUDIO_SINK@");
    assert_eq!(default_node(false), "@DEFAULT_AUDIO_SOURCE@");
    assert_eq!(selector_icon(false), "audio-input-microphone-symbolic");
    assert_eq!(input_icon(true), "microphone-disabled-symbolic");
    assert_eq!(input_icon(false), "audio-input-microphone-symbolic");
    let dev = |name: &str, is_default: bool| AudioDevice {
        id: 1,
        name: name.to_string(),
        description: String::new(),
        volume_percent: 50,
        muted: false,
        is_default,
    };
    assert_eq!(current_device_name(&vec![dev("a", false), dev("b", true), dev("c", true)]), "b");
    assert_eq!(current_device_name(&vec![dev("a", false)]), "No device");
    assert_eq!(truncate_string("Starship HD Audio", 10), "Starshi...");
    assert_eq!(truncate_string("short", 10), "short");
    assert_eq!(truncate_string("Headphones", 8), "Headp...");
    assert_eq!(truncate_string("Headphones", 8).len(), 8);
    assert_eq!(truncate_string("Headphones", 10), "Headphones");
    assert_eq!(get_app_icon("Firefox"), get_app_icon("firefox"));
}

#[test]
fn positions_read_back() {
    for (name, p) in [
        ("top-left", Position::TopLeft),
        ("top-center", Position::TopCenter),
        ("top-right", Position::TopRight),
        ("bottom-left", Position::BottomLeft),
        ("bottom-center", Position::BottomCenter),
        ("bottom-right", Position::BottomRight),
        ("center", Position::Center),
        ("center-left", Position::CenterLeft),
        ("center-right", Position::CenterRight),
    ] {
        assert_eq!(Position::from_str(name), p);
    }
    assert_eq!(Position::from_str("TOP"), Position::TopCenter);
    assert_eq!(Position::from_str("elsewhere"), Position::TopRight);
}

fn notification(app: &str, summary: &str) -> Notification {
    Notification::new(9, app.to_string(), String::new(), summary.to_string(), String::new())
}

#[test]
fn panel_decisions() {
    assert_eq!(desktop_id("firefox.desktop"), "firefox.desktop");
    assert_eq!(desktop_id("Firefox"), "firefox.desktop");
    let n = notification("Slack", "hi");
    match card_click(&n) {
        CardClick::Launch(d) => assert_eq!(d, "slack.desktop"),
        other => panic!("unexpected {:?}", other),
    }
    let mut m = notification("Slack", "hi");
    m.desktop_entry = Some("com.slack.Slack".to_string());
    match card_click(&m) {
        CardClick::Launch(d) => assert_eq!(d, "com.slack.slack.desktop"),
        other => panic!("unexpected {:?}", other),
    }
    m.actions = vec![("default".to_string(), "Open".to_string())];
    assert!(matches!(card_click(&m), CardClick::InvokeDefault(9)));
    assert!(!footer_visible(0));
    assert!(footer_visible(3));
    assert_eq!(unread_subtitle(1), "1 unread");
    assert_eq!(unread_subtitle(12), "12 unread");
    assert_eq!(unread_subtitle(0), "0 unread");
}

#[test]
fn panel_kinds() {
    assert_eq!(get_notification_type(&notification("Battery", "Low battery")), "warning");
    assert_eq!(get_notification_type(&notification("Make", "Build failed")), "error");
    let mut c = notification("x", "y");
    c.urgency = Urgency::Critical;
    assert_eq!(get_notification_type(&c), "error");
    assert_eq!(get_notification_type(&notification("VSCode", "Task completed")), "success");
    assert_eq!(get_notification_type(&notification("mail", "New message")), "info");
    assert_eq!(get_type_icon("error"), get_type_icon("error"));
}

#[test]
fn server_facts() {
    let info = server_information("0.3.1");
    assert_eq!(info, ("rust-widgets".to_string(), "vib1240n".to_string(), "0.3.1".to_string(), "1.2".to_string()));
    assert_eq!(get_capabilities(), strings(&["actions", "body", "body-hyperlinks", "body-markup", "icon-static", "persistence", "action-icons"]));
}

#[test]
fn notify_call_builds_notification() {
    let mut ids = IdSource::new();
    assert_eq!(ids.id_for(0), 1);
    assert_eq!(ids.id_for(0), 2);
    assert_eq!(ids.id_for(77), 77);
    assert_eq!(ids.id_for(0), 3);
    let n = build_notification(
        5,
        "app".to_string(),
        "icon".to_string(),
        "sum".to_string(),
        "body".to_string(),
        strings(&["default", "Open", "x", "X", "dangling"]),
        vec![
            ("urgency".to_string(), HintValue::Byte(2)),
            ("value".to_string(), HintValue::Int32(150)),
            ("category".to_string(), HintValue::Text("im".to_string())),
            ("transient".to_string(), HintValue::Boolean(true)),
        ],
        -1,
    );
    assert_eq!(n.id, 5);
    assert_eq!(n.actions, vec![("default".to_string(), "Open".to_string()), ("x".to_string(), "X".to_string())]);
    assert_eq!(n.urgency, Urgency::Critical);
    assert_eq!(n.progress, Some(100));
    assert_eq!(n.category.as_deref(), Some("im"));
    assert!(n.transient);
    assert_eq!(n.expire_timeout, Some(-1));
}

#[test]
fn markup_stripped() {
    assert_eq!(strip_popup_markup("<b>Hi</b> <a href=\"x\">there</a> &amp; you"), "Hi there & you");
    assert_eq!(strip_panel_markup("<i>a</i>&lt;b&gt;"), "a<b>");
}
