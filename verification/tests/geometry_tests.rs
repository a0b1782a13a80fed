use asbar::config::Anchor;
use asbar::geometry::{island_x, island_y, panel_position, window_extent, Monitor};

#[test]
fn island_docks_by_anchor() {
    // 1920-wide monitor at x = 0, 510-wide island, no nudge.
    assert_eq!(island_x(Anchor::Left, 0, 1920, 510, 0), 0);
    assert_eq!(island_x(Anchor::Center, 0, 1920, 510, 0), 705);
    assert_eq!(island_x(Anchor::Right, 0, 1920, 510, 0), 1410);
}

#[test]
fn nudge_is_mirrored_when_docked_right() {
    assert_eq!(island_x(Anchor::Left, 100, 1920, 500, 20), 120);
    assert_eq!(island_x(Anchor::Right, 100, 1920, 500, 20), 1500);
    assert_eq!(island_x(Anchor::Center, 100, 1920, 500, 20), 830);
}

#[test]
fn centering_rounds_toward_zero() {
    assert_eq!(island_x(Anchor::Center, 0, 1921, 510, 0), 705);
    // A window wider than the monitor: (1000 - 1001) / 2 == 0 in Rust.
    assert_eq!(island_x(Anchor::Center, 0, 1000, 1001, 0), 0);
    assert_eq!(island_x(Anchor::Center, 0, 1000, 1003, 0), -1);
}

#[test]
fn island_top_edge() {
    assert_eq!(island_y(-1080, 12), -1068);
}

#[test]
fn window_extents_are_at_least_one_pixel() {
    assert_eq!(window_extent(0), 1);
    assert_eq!(window_extent(-5), 1);
    assert_eq!(window_extent(640), 640);
}

#[test]
fn panel_unfolds_under_the_island() {
    assert_eq!(panel_position(705, 0, 510, 100, 400, 300, None), (760, 82));
}

#[test]
fn panel_is_kept_on_the_monitor() {
    let m = Monitor { x: 0, y: 0, width: 1920, height: 1080 };
    // Island at the left edge: the panel is pushed right to the gap.
    assert_eq!(panel_position(0, 0, 100, 100, 400, 300, Some(m)), (8, 82));
    // Island at the right edge: the panel is pulled left.
    assert_eq!(panel_position(1820, 0, 100, 100, 400, 300, Some(m)), (1512, 82));
    // Island at the bottom: the panel is lifted.
    assert_eq!(panel_position(760, 1000, 400, 100, 400, 300, Some(m)), (760, 772));
}

#[test]
fn panel_wider_than_the_monitor_sticks_to_the_left_gap() {
    let m = Monitor { x: -1920, y: 0, width: 800, height: 600 };
    assert_eq!(panel_position(-1500, 0, 100, 100, 1000, 700, Some(m)), (-1912, 8));
}
