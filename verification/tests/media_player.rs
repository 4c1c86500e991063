use rust_widgets::media::players::{
    active_player, art_source, clock_text, has_media, player_icon, player_names, rank_of, selection_after_refresh,
    shown_title, shows_selector, sort_players, status_icon, ArtSource, Player,
};

fn player(name: &str, status: &str) -> Player {
    Player { name: name.to_string(), status: status.to_string() }
}

#[test]
fn players_sorted_playing_then_spotify() {
    let ps = vec![
        player("firefox", "Paused"),
        player("spotify", "Paused"),
        player("chromium", "Playing"),
        player("Spotify.instance2", "Playing"),
        player("mpv", "Playing"),
    ];
    let sorted = sort_players(ps);
    let names: Vec<&str> = sorted.iter().map(|p| p.name.as_str()).collect();
    assert_eq!(names, vec!["Spotify.instance2", "chromium", "mpv", "spotify", "firefox"]);
}

#[test]
fn players_ranks() {
    assert_eq!(rank_of(&player("spotify", "Playing")), 0);
    assert_eq!(rank_of(&player("vlc", "Playing")), 1);
    assert_eq!(rank_of(&player("SPOTIFY", "Paused")), 2);
    assert_eq!(rank_of(&player("vlc", "Stopped")), 3);
}

#[test]
fn players_listed() {
    assert_eq!(player_names("spotify\n\nfirefox.instance_1_2\n"), vec!["spotify".to_string(), "firefox.instance_1_2".to_string()]);
    assert!(player_names("").is_empty());
    let ps = vec![player("a", "Playing"), player("b", "Paused")];
    assert_eq!(active_player(&ps).as_deref(), Some("a"));
    assert_eq!(active_player(&Vec::new()), None);
}

#[test]
fn players_selection() {
    assert_eq!(selection_after_refresh(2, 3), 2);
    assert_eq!(selection_after_refresh(3, 3), 0);
    assert_eq!(selection_after_refresh(0, 0), 0);
    assert!(!shows_selector(1));
    assert!(shows_selector(2));
}

#[test]
fn players_icons() {
    assert_eq!(player_icon("Spotify"), "emblem-music-symbolic");
    assert_eq!(player_icon("firefox.instance_1"), "firefox-symbolic");
    assert_eq!(player_icon("Chromium"), "web-browser-symbolic");
    assert_eq!(player_icon("mpv"), "multimedia-player-symbolic");
}

#[test]
fn media_status() {
    assert!(has_media("Playing\n"));
    assert!(!has_media("\n"));
    assert!(!has_media("No players found\n"));
    assert_eq!(status_icon("Playing\n"), "media-playback-pause-symbolic");
    assert_eq!(status_icon("Paused"), "media-playback-start-symbolic");
    assert_eq!(shown_title("  "), "Unknown");
    assert_eq!(shown_title(" Song\n"), "Song");
}

#[test]
fn media_clock() {
    assert_eq!(clock_text(0), "0:00");
    assert_eq!(clock_text(65_000_000), "1:05");
    assert_eq!(clock_text(3_599_999_999), "59:59");
    assert_eq!(clock_text(7_200_000_000), "120:00");
    assert_eq!(clock_text(-61_000_000), "-1:-1");
    assert_eq!(clock_text(999_999), "0:00");
    for us in [0i64, 5_000_000, 61_500_000, 600_000_000, -5_000_000, i64::MAX, i64::MIN] {
        let s = us / 1_000_000;
        assert_eq!(clock_text(us), format!("{}:{:02}", s / 60, s % 60));
    }
}

#[test]
fn media_art() {
    assert_eq!(art_source("file:///tmp/a.png"), ArtSource::File("/tmp/a.png".to_string()));
    assert_eq!(art_source("https://i.scdn.co/image/x"), ArtSource::Web);
    assert_eq!(art_source("http://x"), ArtSource::Web);
    assert_eq!(art_source(""), ArtSource::Nothing);
}
