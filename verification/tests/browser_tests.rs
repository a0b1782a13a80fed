use asbar::browser::{
    active_youtube_video_id, extract_video_id, is_browser, is_browser_window_class, thumbnail_urls,
};

fn id(url: &str) -> Option<String> {
    extract_video_id(url)
}

#[test]
fn watch_url_gives_id() {
    assert_eq!(id("https://www.youtube.com/watch?v=dQw4w9WgXcQ"), Some("dQw4w9WgXcQ".to_string()));
}

#[test]
fn watch_url_with_more_parameters() {
    assert_eq!(
        id("https://www.youtube.com/watch?v=dQw4w9WgXcQ&t=42s&list=PL123"),
        Some("dQw4w9WgXcQ".to_string())
    );
}

#[test]
fn watch_round_trip_keeps_long_runs_to_eleven() {
    // The id characters continue past eleven: only the first eleven are kept.
    assert_eq!(
        id("https://www.youtube.com/watch?v=abcdefghijkLMNOP"),
        Some("abcdefghijk".to_string())
    );
}

#[test]
fn shorts_url_gives_id() {
    assert_eq!(id("https://youtube.com/shorts/A_b-C1d2E3f"), Some("A_b-C1d2E3f".to_string()));
}

#[test]
fn youtu_be_url_gives_id() {
    assert_eq!(id("https://youtu.be/dQw4w9WgXcQ?si=abc"), Some("dQw4w9WgXcQ".to_string()));
}

#[test]
fn embed_and_live_urls_give_id() {
    assert_eq!(id("https://www.youtube.com/embed/dQw4w9WgXcQ"), Some("dQw4w9WgXcQ".to_string()));
    assert_eq!(id("https://www.youtube.com/live/dQw4w9WgXcQ?feature=share"), Some("dQw4w9WgXcQ".to_string()));
}

#[test]
fn short_id_is_rejected() {
    assert_eq!(id("https://www.youtube.com/watch?v=abc"), None);
}

#[test]
fn id_cut_by_other_character_is_rejected() {
    assert_eq!(id("https://www.youtube.com/watch?v=abcde.ghijk"), None);
}

#[test]
fn non_youtube_url_is_ignored() {
    assert_eq!(id("https://vimeo.com/watch?v=dQw4w9WgXcQ"), None);
    assert_eq!(id(""), None);
}

#[test]
fn earlier_marker_wins() {
    assert_eq!(
        id("https://youtube.com/shorts/aaaaaaaaaaa?v=bbbbbbbbbbb"),
        Some("bbbbbbbbbbb".to_string())
    );
}

#[test]
fn later_marker_used_when_earlier_one_fails() {
    assert_eq!(
        id("https://youtube.com/shorts/aaaaaaaaaaa?v=xx"),
        Some("aaaaaaaaaaa".to_string())
    );
}

#[test]
fn only_first_occurrence_of_a_marker_counts() {
    // The first "v=" is followed by a short value; the second one is not looked at.
    assert_eq!(id("https://www.youtube.com/watch?v=ab&v=dQw4w9WgXcQ"), None);
}

#[test]
fn non_ascii_text_before_the_id() {
    assert_eq!(
        id("Ютуб — https://www.youtube.com/watch?v=dQw4w9WgXcQ"),
        Some("dQw4w9WgXcQ".to_string())
    );
}

#[test]
fn browsers_are_recognised() {
    assert!(is_browser("Google Chrome"));
    assert!(is_browser("Microsoft Edge"));
    assert!(is_browser("Firefox"));
    assert!(is_browser("Zen Browser"));
    assert!(is_browser("Opera"));
    assert!(is_browser("Brave"));
    assert!(is_browser("Vivaldi"));
}

#[test]
fn browser_check_ignores_case() {
    assert!(is_browser("FIREFOX"));
    assert!(is_browser("gOoGlE cHrOmE"));
}

#[test]
fn native_players_are_not_browsers() {
    assert!(!is_browser("Yandex Music"));
    assert!(!is_browser("Spotify"));
    assert!(!is_browser(""));
}

#[test]
fn browser_window_classes() {
    assert!(is_browser_window_class("Chrome_WidgetWin_1"));
    assert!(is_browser_window_class("MozillaWindowClass"));
    assert!(!is_browser_window_class("Chrome_WidgetWin_0"));
    assert!(!is_browser_window_class("chrome_widgetwin_1"));
}

#[test]
fn thumbnail_urls_best_first() {
    let urls = thumbnail_urls("dQw4w9WgXcQ");
    assert_eq!(urls[0], "https://i.ytimg.com/vi/dQw4w9WgXcQ/maxresdefault.jpg");
    assert_eq!(urls[1], "https://i.ytimg.com/vi/dQw4w9WgXcQ/sddefault.jpg");
    assert_eq!(urls[2], "https://i.ytimg.com/vi/dQw4w9WgXcQ/hqdefault.jpg");
}

#[test]
fn first_window_showing_a_video_wins() {
    let bars = vec![
        "https://example.com/".to_string(),
        "https://www.youtube.com/watch?v=aaaaaaaaaaa".to_string(),
        "https://youtu.be/bbbbbbbbbbb".to_string(),
    ];
    assert_eq!(active_youtube_video_id(&bars), Some("aaaaaaaaaaa".to_string()));
}

#[test]
fn no_windows_no_video() {
    assert_eq!(active_youtube_video_id(&Vec::new()), None);
    let bars = vec!["https://www.youtube.com/".to_string()];
    assert_eq!(active_youtube_video_id(&bars), None);
}
