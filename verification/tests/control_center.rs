use rust_widgets::control::bluetooth::{
    action_step, ActionStep, DeviceCommand,
    apply_info, collect_devices, context_action, device_section, device_status, display_order,
    parse_device_line, power_state, powered_on, section_title, BluetoothDevice, ContextAction,
};
use rust_widgets::control::media::{media_info, play_button_icon};
use rust_widgets::control::sliders::{audio_outputs, brightness_percent, current_output, volume_token};
use rust_widgets::control::toggles::{
    caffeine_action, caffeine_enabled, dnd_enabled, flipped_state, shown_toggles, toggle_face, vpn_direction,
    vpn_up, wifi_enabled, CaffeineAction, Toggle,
};

fn device(address: &str, name: &str, paired: bool, connected: bool) -> BluetoothDevice {
    BluetoothDevice {
        address: address.to_string(),
        name: name.to_string(),
        paired,
        trusted: false,
        connected,
        icon: "bluetooth-symbolic".to_string(),
    }
}

#[test]
fn bluetooth_device_line() {
    let d = parse_device_line("Device AA:BB:CC:DD:EE:FF My Headphones").expect("a device");
    assert_eq!(d.address, "AA:BB:CC:DD:EE:FF");
    assert_eq!(d.name, "My Headphones");
    assert!(!d.paired && !d.trusted && !d.connected);
    assert_eq!(d.icon, "bluetooth-symbolic");
    assert!(parse_device_line("Device AA:BB").is_none());
    assert!(parse_device_line("Controller AA:BB:CC:DD:EE:FF box").is_none());
    let e = parse_device_line("Device AA:BB ").expect("empty name");
    assert_eq!(e.name, "");
}

#[test]
fn bluetooth_info_applied() {
    let mut d = device("AA", "Pods", false, false);
    apply_info(&mut d, "Paired: yes\nTrusted: no\nConnected: yes\nIcon: audio-headset\n");
    assert!(d.connected && d.paired && !d.trusted);
    assert_eq!(d.icon, "audio-headphones-symbolic");
    let mut k = device("BB", "Keys", false, false);
    apply_info(&mut k, "Icon: input-keyboard\nTrusted: yes");
    assert_eq!(k.icon, "input-keyboard-symbolic");
    assert!(k.trusted);
    let mut u = device("CC", "Thing", false, false);
    apply_info(&mut u, "Icon: unknown-thing");
    assert_eq!(u.icon, "bluetooth-symbolic");
}

#[test]
fn bluetooth_collect_without_duplicates() {
    let paired = "Device 11 Alpha\nDevice 22 Beta\n";
    let all = "Device 22 Beta\nDevice 33 Gamma\nnoise\n";
    let ds = collect_devices(paired, all);
    let addrs: Vec<&str> = ds.iter().map(|d| d.address.as_str()).collect();
    assert_eq!(addrs, vec!["11", "22", "33"]);
}

#[test]
fn bluetooth_display_order_groups_and_sorts() {
    let ds = vec![
        device("1", "Zeta", false, false),
        device("2", "Beta", true, false),
        device("3", "Alpha", false, false),
        device("4", "Mouse", true, true),
        device("5", "Alpha", false, false),
        device("6", "Aardvark", true, false),
    ];
    assert_eq!(display_order(&ds), vec![3, 5, 1, 2, 4, 0]);
    assert_eq!(device_section(&ds[3]), 0);
    assert_eq!(device_section(&ds[1]), 1);
    assert_eq!(device_section(&ds[0]), 2);
    assert_eq!(section_title(0), "Connected");
    assert_eq!(section_title(1), "Paired");
    assert_eq!(section_title(2), "Available");
    assert!(display_order(&Vec::new()).is_empty());
}

#[test]
fn bluetooth_small_decisions() {
    assert!(powered_on("Controller x\n\tPowered: yes\n"));
    assert!(!powered_on("Powered: no"));
    assert_eq!(power_state(true), "on");
    assert_eq!(power_state(false), "off");
    assert_eq!(device_status(&device("1", "a", true, true)), "Connected");
    assert_eq!(device_status(&device("1", "a", true, false)), "Paired");
    assert_eq!(device_status(&device("1", "a", false, false)), "Available");
    assert_eq!(context_action(false, false), ContextAction::PairAndTrust);
    assert_eq!(context_action(true, false), ContextAction::Trust);
    assert_eq!(context_action(true, true), ContextAction::Remove);
}

#[test]
fn toggles_shown_in_order() {
    assert_eq!(shown_toggles(true, true, true, true, true, true), vec![
        Toggle::Wifi, Toggle::Bluetooth, Toggle::Dnd, Toggle::Caffeine, Toggle::NightLight, Toggle::Vpn,
    ]);
    assert_eq!(shown_toggles(false, true, false, false, true, false), vec![Toggle::Bluetooth, Toggle::NightLight]);
    assert_eq!(toggle_face(Toggle::Wifi), ("network-wireless-symbolic", "WiFi"));
    assert_eq!(toggle_face(Toggle::NightLight), ("night-light-symbolic", "Night"));
}

#[test]
fn toggles_read_state() {
    assert!(wifi_enabled("enabled\n"));
    assert!(!wifi_enabled("disabled\n"));
    assert!(dnd_enabled(" true\n"));
    assert!(!dnd_enabled("false"));
    assert!(vpn_up("4: proton-us: <POINTOPOINT> mtu 1420 state UP mode"));
    assert!(!vpn_up("state DOWN"));
    assert_eq!(flipped_state(true), "off");
    assert_eq!(flipped_state(false), "on");
    assert_eq!(vpn_direction(true), "down");
    assert_eq!(vpn_direction(false), "up");
    assert_eq!(caffeine_action(true, true), CaffeineAction::RunScript);
    assert_eq!(caffeine_action(false, true), CaffeineAction::Stop);
    assert_eq!(caffeine_action(false, false), CaffeineAction::Start);
    assert!(caffeine_enabled(false, true));
    assert!(!caffeine_enabled(false, false));
}

const WPCTL_STATUS: &str = "PipeWire 'pipewire-0' [1.0.0]\n └─ Clients:\n        33. WirePlumber\n\nAudio\n ├─ Devices:\n │      42. Built-in Audio                      [alsa]\n │  \n ├─ Sinks:\n │  *   46. Starship HD Audio Analog Stereo [vol: 0.45]\n │      51. USB Headset Stereo              [vol: 1.00]\n │  \n ├─ Sources:\n │  *   47. Mic [vol: 1.00]\n";

#[test]
fn sliders_audio_outputs() {
    let outs = audio_outputs(WPCTL_STATUS);
    assert_eq!(outs, vec![
        ("46".to_string(), "Starship HD Audio Analog Stereo".to_string()),
        ("51".to_string(), "USB Headset Stereo".to_string()),
    ]);
    assert!(audio_outputs("nothing here").is_empty());
}

#[test]
fn sliders_current_output() {
    assert_eq!(current_output(WPCTL_STATUS), "46");
    assert_eq!(current_output("no stars"), "");
}

#[test]
fn sliders_volume_token() {
    assert_eq!(volume_token("Volume: 0.45\n").as_deref(), Some("0.45"));
    assert_eq!(volume_token("Volume: 0.30 [MUTED]").as_deref(), Some("0.30"));
    assert_eq!(volume_token("Volume:"), None);
}

#[test]
fn sliders_brightness() {
    assert_eq!(brightness_percent("120\n", "240\n"), 50);
    assert_eq!(brightness_percent("19393", "19393"), 100);
    assert_eq!(brightness_percent("garbage", "100"), 0);
    assert_eq!(brightness_percent("50", "garbage"), 5000);
    assert_eq!(brightness_percent("50", "0"), 50);
}

#[test]
fn media_section() {
    let m = media_info(true, "Playing\n", " Song \n", "Artist\n").expect("a track");
    assert_eq!(m.title, "Song");
    assert_eq!(m.artist, "Artist");
    assert!(m.playing);
    let p = media_info(true, "Paused", "Song", "").unwrap();
    assert!(!p.playing);
    assert!(media_info(false, "Playing", "Song", "A").is_none());
    assert!(media_info(true, "Playing", "  \n", "A").is_none());
    assert_eq!(play_button_icon(true), "media-playback-pause-symbolic");
    assert_eq!(play_button_icon(false), "media-playback-start-symbolic");
}

#[test]
fn bluetooth_action_steps() {
    assert_eq!(action_step(true, true, None), ActionStep::Run(DeviceCommand::Disconnect));
    assert_eq!(action_step(true, true, Some((DeviceCommand::Disconnect, false))), ActionStep::Report(false));
    assert_eq!(action_step(false, false, None), ActionStep::Run(DeviceCommand::Pair));
    assert_eq!(action_step(false, false, Some((DeviceCommand::Pair, false))), ActionStep::Abandon);
    assert_eq!(action_step(false, false, Some((DeviceCommand::Pair, true))), ActionStep::Run(DeviceCommand::Trust));
    assert_eq!(action_step(false, false, Some((DeviceCommand::Trust, false))), ActionStep::Run(DeviceCommand::Connect));
    assert_eq!(action_step(false, false, Some((DeviceCommand::Connect, true))), ActionStep::Report(true));
    assert_eq!(action_step(false, true, None), ActionStep::Run(DeviceCommand::Connect));
}
