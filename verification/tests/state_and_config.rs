use rust_widgets::control::press::{PressOutcome, PressTracker, LONG_PRESS_MS};
use rust_widgets::osd::display::{DisplayState, ShowSteps};

#[test]
fn short_click_toggles() {
    let mut t = PressTracker::new();
    t.pressed(1000);
    assert_eq!(t.check(1000 + LONG_PRESS_MS - 1), PressOutcome::Nothing);
    assert_eq!(t.clicked(), PressOutcome::Toggle);
    assert_eq!(t.start, None);
}

#[test]
fn long_press_opens_panel() {
    let mut t = PressTracker::new();
    t.pressed(1000);
    assert_eq!(t.check(1500), PressOutcome::ShowPanel);
    assert!(t.long_press);
    assert_eq!(t.clicked(), PressOutcome::Nothing);
    t.pressed(2000);
    assert!(!t.long_press);
    assert_eq!(t.clicked(), PressOutcome::Toggle);
}

#[test]
fn check_after_release_does_nothing() {
    let mut t = PressTracker::new();
    t.pressed(0);
    assert_eq!(t.clicked(), PressOutcome::Toggle);
    assert_eq!(t.check(10_000), PressOutcome::Nothing);
}

#[test]
fn osd_shows_and_hides() {
    let mut d = DisplayState::new();
    assert_eq!(d.level_received(), ShowSteps { present: true, cancel: None });
    d.timer_started(7);
    assert_eq!(d.level_received(), ShowSteps { present: false, cancel: Some(7) });
    d.timer_started(8);
    d.timer_fired();
    assert_eq!(d, DisplayState { visible: false, hide_timer: None });
    assert_eq!(d.level_received(), ShowSteps { present: true, cancel: None });
}

#[test]
fn notification_center_defaults() {
    let c = rust_widgets::notify::config::Config::default();
    assert_eq!(c.popup.margin, 10);
    assert_eq!(c.popup.gap, 8);
    assert_eq!(c.popup.max_visible, 5);
    assert_eq!(c.appearance.max_history, 50);
    assert_eq!(c.animation.animation_type, "slide");
    assert!(!c.behavior.dnd_enabled);
}

#[test]
fn stats_defaults() {
    let t = rust_widgets::stats::config::TemperatureSelection::default();
    assert_eq!(t.show_labels, vec!["package".to_string(), "gpu".to_string(), "core 0".to_string()]);
    assert_eq!(t.max_display, 4);
    let s = rust_widgets::stats::config::SectionsConfig::default();
    assert!(s.cpu && s.memory && s.disk && s.battery && s.temperatures && !s.network);
}

#[test]
fn general_defaults() {
    let g = rust_widgets::base::config::GeneralConfig::default();
    assert_eq!(g.theme, "default");
    assert_eq!(g.animation_duration, 200);
}
