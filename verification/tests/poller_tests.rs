use asbar::poller::{ArtPoller, PollStep};

#[test]
fn first_track_triggers_a_lookup() {
    let mut p = ArtPoller::new();
    assert_eq!(p.observe(true, "Band|Song"), PollStep::FetchArt { changed: true });
    assert_eq!(p.art_found(true, "data:image/png;base64,AA".to_string()), Some("data:image/png;base64,AA".to_string()));
    // Art is shown: later ticks of the same track do not look again.
    assert_eq!(p.observe(true, "Band|Song"), PollStep::Emit { clear: false, changed: false });
    assert_eq!(p.observe(true, "Band|Song"), PollStep::Emit { clear: false, changed: false });
}

#[test]
fn missing_art_is_cleared_on_track_change_then_retried() {
    let mut p = ArtPoller::new();
    assert_eq!(p.observe(true, "A|1"), PollStep::FetchArt { changed: true });
    assert_eq!(p.art_found(true, String::new()), Some(String::new()));
    assert_eq!(p.observe(true, "A|1"), PollStep::FetchArt { changed: false });
    assert_eq!(p.art_found(false, String::new()), None);
}

#[test]
fn lookups_stop_after_twelve_tries() {
    let mut p = ArtPoller::new();
    let mut fetches = 0;
    for _ in 0..20 {
        match p.observe(true, "A|1") {
            PollStep::FetchArt { changed } => {
                fetches += 1;
                let _ = p.art_found(changed, String::new());
            }
            PollStep::Emit { clear, changed } => {
                assert!(!clear);
                assert!(!changed);
            }
        }
    }
    assert_eq!(fetches, 12);
}

#[test]
fn new_track_restarts_the_lookups() {
    let mut p = ArtPoller::new();
    for _ in 0..15 {
        if let PollStep::FetchArt { changed } = p.observe(true, "A|1") {
            let _ = p.art_found(changed, String::new());
        }
    }
    assert_eq!(p.observe(true, "B|2"), PollStep::FetchArt { changed: true });
}

#[test]
fn losing_the_session_clears_the_art_once() {
    let mut p = ArtPoller::new();
    assert_eq!(p.observe(true, "A|1"), PollStep::FetchArt { changed: true });
    let _ = p.art_found(true, "uri".to_string());
    // No session: the snapshot's track id is empty.
    assert_eq!(p.observe(false, ""), PollStep::Emit { clear: true, changed: true });
    assert_eq!(p.observe(false, ""), PollStep::Emit { clear: false, changed: false });
}

#[test]
fn empty_poller_with_no_session_sends_nothing() {
    let mut p = ArtPoller::new();
    assert_eq!(p.observe(false, ""), PollStep::Emit { clear: false, changed: false });
}

#[test]
fn run_stops_once_art_is_found() {
    let mut p = ArtPoller::new();
    let mut sent = Vec::new();
    let mut lookups = 0;
    for tick in 0..10 {
        let thumb = match p.observe(true, "A|1") {
            PollStep::Emit { clear, .. } => if clear { Some(String::new()) } else { None },
            PollStep::FetchArt { changed } => {
                lookups += 1;
                let uri = if tick == 2 { "art".to_string() } else { String::new() };
                p.art_found(changed, uri)
            }
        };
        sent.push(thumb);
    }
    assert_eq!(lookups, 3);
    assert_eq!(sent[0], Some(String::new()));
    assert_eq!(sent[1], None);
    assert_eq!(sent[2], Some("art".to_string()));
    assert!(sent[3..].iter().all(|t| t.is_none()));
}
