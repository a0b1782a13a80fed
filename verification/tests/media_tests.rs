use asbar::media::{
    fetch_thumbnail, friendly_source, image_ext, status_label, ticks_since_1601, track_identity,
    PlaybackState,
};

#[test]
fn known_players_get_their_label() {
    assert_eq!(friendly_source("Spotify.exe"), "Spotify");
    assert_eq!(friendly_source("MSEdge"), "Microsoft Edge");
    assert_eq!(friendly_source("Chrome"), "Google Chrome");
    assert_eq!(friendly_source("Yandex.Music"), "Yandex Music");
    assert_eq!(friendly_source("AppleInc.AppleMusicWin_nzyj5cx40ttqa!App"), "Apple Music");
    assert_eq!(friendly_source("TIDAL.exe"), "TIDAL");
}

#[test]
fn first_table_entry_wins() {
    // "yandex" comes before "chrome" in the table.
    assert_eq!(friendly_source("yandex-chrome-host"), "Yandex Music");
}

#[test]
fn mozilla_clsid_is_firefox() {
    assert_eq!(friendly_source("308046B0AF4A39CB"), "Firefox");
}

#[test]
fn unknown_source_falls_back_to_executable_name() {
    assert_eq!(friendly_source("C:\\Program Files\\Player\\player.exe"), "player");
    assert_eq!(friendly_source("Microsoft.ZuneMusic_8wekyb3d8bbwe!Microsoft.ZuneMusic"), "Microsoft.ZuneMusic");
    assert_eq!(friendly_source("tool.exe.exe"), "tool");
    assert_eq!(friendly_source("noext"), "noext");
    assert_eq!(friendly_source(""), "");
    assert_eq!(friendly_source("dir\\"), "");
}

#[test]
fn track_identity_joins_artist_and_title() {
    assert_eq!(track_identity("Song", "Band"), Some("Band|Song".to_string()));
    assert_eq!(track_identity("Song", ""), Some("|Song".to_string()));
    assert_eq!(track_identity("", "Band"), Some("Band|".to_string()));
    assert_eq!(track_identity("", ""), None);
}

#[test]
fn ticks_since_1601_of_the_unix_epoch() {
    assert_eq!(ticks_since_1601(0), 116_444_736_000_000_000);
    assert_eq!(ticks_since_1601(1_000), 116_444_736_000_000_010);
    assert_eq!(ticks_since_1601(199), 116_444_736_000_000_001);
}

#[test]
fn image_extension_from_magic_bytes() {
    assert_eq!(image_ext(&[0xFF, 0xD8, 0xFF, 0xE0]), "jpg");
    assert_eq!(image_ext(&[0x89, b'P', b'N', b'G']), "png");
    assert_eq!(image_ext(&[0xFF, 0xD8]), "png");
    assert_eq!(image_ext(&[]), "png");
}

#[test]
fn thumbnail_from_session_bytes() {
    let t = fetch_thumbnail(Some(vec![0xFF, 0xD8, 0xFF, 1, 2])).unwrap();
    assert_eq!(t.bytes, vec![0xFF, 0xD8, 0xFF, 1, 2]);
    assert_eq!(t.ext, "jpg");
    let p = fetch_thumbnail(Some(vec![1, 2, 3])).unwrap();
    assert_eq!(p.ext, "png");
}

#[test]
fn no_or_empty_thumbnail() {
    assert!(fetch_thumbnail(None).is_none());
    assert!(fetch_thumbnail(Some(Vec::new())).is_none());
}

#[test]
fn playback_states_are_reported_as_text() {
    assert_eq!(status_label(PlaybackState::Playing), "playing");
    assert_eq!(status_label(PlaybackState::Paused), "paused");
    assert_eq!(status_label(PlaybackState::Stopped), "stopped");
}
