use asbar::art::{art_lookup_plan, ArtLookup};
use asbar::art::{
    accept_download, art_cache_path, art_from_cache, art_key, cached_art_exts, data_uri_from_encoded,
    hd_art_from_cache, to_data_uri,
};

#[test]
fn art_key_scopes_by_source_artist_and_title() {
    assert_eq!(art_key("Spotify", "Artist", "Title"), "Spotify - Artist - Title");
    assert_eq!(art_key("Yandex Music", "AC/DC", "T.N.T."), "Yandex Music - AC_2FDC - T.N.T.");
    assert_ne!(art_key("Spotify", "A", "Song"), art_key("Yandex Music", "A", "Song"));
}

#[test]
fn art_key_escapes_reserved_and_control_characters() {
    assert_eq!(art_key("S", "a<b>c\"d\\e|f*g", "?"), "S - a_3Cb_3Ec_22d_5Ce_7Cf_2Ag - _3F");
    assert_eq!(art_key("S", "\tname\n", "x\u{85}y"), "S - _09name_0A - x_85y");
    let key = art_key("<>", ":\"/\\", "|?*\u{7f}");
    assert!(!key.chars().any(|c| "<>:\"/\\|?*".contains(c) || c.is_control()));
}

#[test]
fn art_key_escapes_the_separator_and_the_escape_character() {
    assert_eq!(art_key("A", "B - C", "T"), "A - B _2D C - T");
    assert_eq!(art_key("A - B", "C", "T"), "A _2D B - C - T");
    assert_eq!(art_key("S", "a_b", "t"), "S - a_5Fb - t");
    assert_eq!(art_key("", "", ""), " -  - ");
}

#[test]
fn art_key_keeps_tracks_that_differ_apart() {
    assert_ne!(art_key("Spotify", "/", "Back"), art_key("Spotify", ":", "Back"));
    assert_ne!(art_key("A", "B - C", "T"), art_key("A - B", "C", "T"));
    assert_ne!(art_key("S", "_2F", "T"), art_key("S", "/", "T"));
    assert_ne!(art_key("S", " A", "T"), art_key("S", "A", "T"));
    assert_ne!(art_key("S", "A", "T"), art_key("S", "A", "U"));
}

#[test]
fn art_key_is_cut_to_eighty_characters() {
    let title = "я".repeat(100);
    let key = art_key("S", "A", &title);
    assert_eq!(key.chars().count(), 80);
    assert_eq!(key, format!("S - A - {}", "я".repeat(72)));
    let short = art_key("S", "A", &"я".repeat(72));
    assert_eq!(short.chars().count(), 80);
}

#[test]
fn data_uri_encodes_with_base64() {
    assert_eq!(to_data_uri(b"hello", "png"), "data:image/png;base64,aGVsbG8=");
    assert_eq!(to_data_uri(&[0xFF, 0xD8, 0xFF], "jpg"), "data:image/jpeg;base64,/9j/");
    assert_eq!(to_data_uri(&[], "ico"), "data:image/ico;base64,");
}

#[test]
fn data_uri_from_encoded_text() {
    assert_eq!(data_uri_from_encoded("jpg", "AAAA"), "data:image/jpeg;base64,AAAA");
    assert_eq!(data_uri_from_encoded("jpeg", "AAAA"), "data:image/jpeg;base64,AAAA");
    assert_eq!(data_uri_from_encoded("png", ""), "data:image/png;base64,");
}

#[test]
fn cache_files_live_in_the_icon_directory() {
    assert_eq!(art_cache_path("Spotify - A - B", "png"), "C:/AsBar/Assets/Icons/Spotify - A - B.png");
    assert_eq!(cached_art_exts(), vec!["png", "jpg", "jpeg", "ico"]);
}

#[test]
fn cached_file_used_only_when_not_empty() {
    assert_eq!(art_from_cache(Some(b"hi".to_vec()), "png"), Some("data:image/png;base64,aGk=".to_string()));
    assert_eq!(art_from_cache(Some(Vec::new()), "png"), None);
    assert_eq!(art_from_cache(None, "png"), None);
}

#[test]
fn hd_cache_needs_a_large_file() {
    assert_eq!(hd_art_from_cache(Some(vec![0u8; 19_999])), None);
    let uri = hd_art_from_cache(Some(vec![0u8; 20_000])).unwrap();
    assert!(uri.starts_with("data:image/jpeg;base64,AAAA"));
    assert_eq!(hd_art_from_cache(None), None);
}

#[test]
fn downloads_must_succeed_and_not_be_placeholders() {
    assert_eq!(accept_download(false, vec![0xFF; 5000]), None);
    assert_eq!(accept_download(true, vec![0xFF; 1999]), None);
    let mut jpeg = vec![0u8; 2000];
    jpeg[0] = 0xFF;
    jpeg[1] = 0xD8;
    jpeg[2] = 0xFF;
    let (bytes, ext) = accept_download(true, jpeg).unwrap();
    assert_eq!(bytes.len(), 2000);
    assert_eq!(ext, "jpg");
    let (_, ext) = accept_download(true, vec![0x89; 3000]).unwrap();
    assert_eq!(ext, "png");
}

fn describe(plan: Vec<ArtLookup>) -> Vec<String> {
    plan.into_iter()
        .map(|l| match l {
            ArtLookup::YouTube => "youtube".to_string(),
            ArtLookup::CachedFile { path, ext } => format!("{path} as {ext}"),
            ArtLookup::Session => "session".to_string(),
        })
        .collect()
}

#[test]
fn browsers_try_youtube_art_first() {
    assert_eq!(
        describe(art_lookup_plan("Google Chrome", "k")),
        vec![
            "youtube",
            "C:/AsBar/Assets/Icons/k.png as png",
            "C:/AsBar/Assets/Icons/k.jpg as jpg",
            "C:/AsBar/Assets/Icons/k.jpeg as jpeg",
            "C:/AsBar/Assets/Icons/k.ico as ico",
            "session",
        ]
    );
}

#[test]
fn players_look_in_the_cache_then_the_session() {
    let expected = vec![
        "C:/AsBar/Assets/Icons/S - A - T.png as png",
        "C:/AsBar/Assets/Icons/S - A - T.jpg as jpg",
        "C:/AsBar/Assets/Icons/S - A - T.jpeg as jpeg",
        "C:/AsBar/Assets/Icons/S - A - T.ico as ico",
        "session",
    ];
    assert_eq!(describe(art_lookup_plan("Spotify", "S - A - T")), expected);
    assert_eq!(describe(art_lookup_plan("Yandex Music", "S - A - T")), expected);
}
