use asbar::visualizer::{poll_delay_ms, VizPacer, VizTick};

#[test]
fn moving_bands_are_sent() {
    let mut g = VizPacer::new();
    assert_eq!(g.frame(false, true), VizTick { emit: true, idle: false });
    assert_eq!(g.frame(false, false), VizTick { emit: false, idle: false });
}

#[test]
fn silence_is_sent_once_then_idles() {
    let mut g = VizPacer::new();
    for _ in 0..30 {
        let t = g.frame(true, false);
        assert!(!t.idle);
        assert!(!t.emit);
    }
    let t = g.frame(true, false);
    assert_eq!(t, VizTick { emit: true, idle: true });
    g.sent(t);
    for _ in 0..100 {
        let t = g.frame(true, true);
        assert_eq!(t, VizTick { emit: false, idle: true });
    }
}

#[test]
fn unsent_zero_frame_is_retried() {
    let mut g = VizPacer::new();
    for _ in 0..31 {
        let _ = g.frame(true, false);
    }
    // The zero frame was not delivered: the next idle frame tries again.
    assert_eq!(g.frame(true, false), VizTick { emit: true, idle: true });
}

#[test]
fn sound_wakes_the_pacer() {
    let mut g = VizPacer::new();
    for _ in 0..40 {
        let t = g.frame(true, false);
        if t.emit {
            g.sent(t);
        }
    }
    assert_eq!(g.frame(false, true), VizTick { emit: true, idle: false });
    // A new silent stretch sends its own zero frame again.
    for _ in 0..30 {
        let _ = g.frame(true, false);
    }
    assert_eq!(g.frame(true, false), VizTick { emit: true, idle: true });
}

#[test]
fn delays() {
    assert_eq!(poll_delay_ms(true), 200);
    assert_eq!(poll_delay_ms(false), 55);
}
