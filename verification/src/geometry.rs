//! Window placement in physical pixels.
//!
//! The shell converts logical sizes and offsets to physical pixels with the
//! monitor's scale factor (rounding is floating-point work kept there) and
//! hands the integers here. All arithmetic is `i32`, as on screen
//! coordinates; the `requires` clauses keep every intermediate value in range.

use vstd::prelude::*;
use crate::config::Anchor;

verus! {

/// `v` fits an `i32`.
pub open spec fn fits(v: int) -> bool {
    i32::MIN <= v && v <= i32::MAX
}

/// Rust's `i32` division by two, rounding toward zero.
pub open spec fn half(v: int) -> int {
    if v >= 0 {
        v / 2
    } else {
        -((-v) / 2)
    }
}

fn half_exec(v: i32) -> (r: i32)
    ensures
        r == half(v as int),
{
    v / 2
}

/// The island's left edge for a monitor starting at `mx` with width `mw`, a
/// window of width `win_w`, and a horizontal nudge `off`.
pub open spec fn spec_island_x(anchor: Anchor, mx: int, mw: int, win_w: int, off: int) -> int {
    match anchor {
        Anchor::Left => mx + off,
        Anchor::Right => mx + mw - win_w - off,
        Anchor::Center => mx + half(mw - win_w) + off,
    }
}

/// Every intermediate value of `spec_island_x` fits an `i32`.
pub open spec fn island_x_in_range(anchor: Anchor, mx: int, mw: int, win_w: int, off: int) -> bool {
    match anchor {
        Anchor::Left => fits(mx + off),
        Anchor::Right => fits(mx + mw) && fits(mx + mw - win_w) && fits(mx + mw - win_w - off),
        Anchor::Center => fits(mw - win_w) && fits(mx + half(mw - win_w)) && fits(
            mx + half(mw - win_w) + off,
        ),
    }
}

/// The island's left edge: docked left, right (mirrored nudge) or centred.
pub fn island_x(anchor: Anchor, mx: i32, mw: i32, win_w: i32, off: i32) -> (r: i32)
    requires
        island_x_in_range(anchor, mx as int, mw as int, win_w as int, off as int),
    ensures
        r == spec_island_x(anchor, mx as int, mw as int, win_w as int, off as int),
{
    match anchor {
        Anchor::Left => mx + off,
        Anchor::Right => mx + mw - win_w - off,
        Anchor::Center => mx + half_exec(mw - win_w) + off,
    }
}

/// The island's top edge: `margin` physical pixels below the monitor's top.
pub fn island_y(my: i32, margin: i32) -> (r: i32)
    requires
        fits(my + margin),
    ensures
        r == my + margin,
{
    my + margin
}

/// A window extent as requested from the OS: at least one pixel.
pub fn window_extent(v: i32) -> (r: u32)
    ensures
        r == (if v >= 1 {
            v as int
        } else {
            1
        }),
{
    if v >= 1 {
        v as u32
    } else {
        1
    }
}

/// A monitor's rectangle in physical pixels: position and size.
#[derive(Debug, Clone, Copy, PartialEq, Eq, Structural)]
pub struct Monitor {
    pub x: i32,
    pub y: i32,
    pub width: i32,
    pub height: i32,
}

/// Gap kept between a panel and the monitor edges.
pub open spec fn edge_gap() -> int {
    8
}

/// How far a panel overlaps the island's transparent bottom padding.
pub open spec fn panel_overlap() -> int {
    18
}

/// `v` limited to `[lo, hi]` (with `lo <= hi`), as `i32::clamp`.
pub open spec fn clamp(v: int, lo: int, hi: int) -> int {
    if v < lo {
        lo
    } else if v > hi {
        hi
    } else {
        v
    }
}

/// The larger of two values.
pub open spec fn max(a: int, b: int) -> int {
    if a >= b {
        a
    } else {
        b
    }
}

/// Where a panel (settings or assistant) opens: centred under the island,
/// overlapping its bottom padding, and kept inside the monitor when one is known.
pub open spec fn spec_panel_position(
    ix: int,
    iy: int,
    iw: int,
    ih: int,
    pw: int,
    ph: int,
    monitor: Option<Monitor>,
) -> (int, int) {
    let x = ix + half(iw) - half(pw);
    let y = iy + ih - panel_overlap();
    match monitor {
        None => (x, y),
        Some(m) => {
            let min_x = m.x + edge_gap();
            let max_x = m.x + m.width - pw - edge_gap();
            let min_y = m.y + edge_gap();
            let max_y = m.y + m.height - ph - edge_gap();
            (clamp(x, min_x, max(max_x, min_x)), clamp(y, min_y, max(max_y, min_y)))
        },
    }
}

/// Every intermediate value of `spec_panel_position` fits an `i32`.
pub open spec fn panel_in_range(
    ix: int,
    iy: int,
    iw: int,
    ih: int,
    pw: int,
    ph: int,
    monitor: Option<Monitor>,
) -> bool {
    &&& fits(ix + half(iw))
    &&& fits(ix + half(iw) - half(pw))
    &&& fits(iy + ih)
    &&& fits(iy + ih - panel_overlap())
    &&& match monitor {
        None => true,
        Some(m) => {
            &&& fits(m.x + edge_gap())
            &&& fits(m.x + m.width)
            &&& fits(m.x + m.width - pw)
            &&& fits(m.x + m.width - pw - edge_gap())
            &&& fits(m.y + edge_gap())
            &&& fits(m.y + m.height)
            &&& fits(m.y + m.height - ph)
            &&& fits(m.y + m.height - ph - edge_gap())
        },
    }
}

fn clamp_exec(v: i32, lo: i32, hi: i32) -> (r: i32)
    requires
        lo <= hi,
    ensures
        r == clamp(v as int, lo as int, hi as int),
{
    if v < lo {
        lo
    } else if v > hi {
        hi
    } else {
        v
    }
}

/// Position a panel just beneath the island, horizontally centred on it and
/// clamped to the monitor, so it reads as unfolding out of the pill.
/// `(ix, iy, iw, ih)` is the island's outer rectangle, `(pw, ph)` the
/// panel's outer size.
pub fn panel_position(
    ix: i32,
    iy: i32,
    iw: i32,
    ih: i32,
    pw: i32,
    ph: i32,
    monitor: Option<Monitor>,
) -> (r: (i32, i32))
    requires
        panel_in_range(ix as int, iy as int, iw as int, ih as int, pw as int, ph as int, monitor),
    ensures
        (r.0 as int, r.1 as int) == spec_panel_position(
            ix as int,
            iy as int,
            iw as int,
            ih as int,
            pw as int,
            ph as int,
            monitor,
        ),
{
    let center = ix + half_exec(iw);
    let mut x = center - half_exec(pw);
    let mut y = iy + ih - 18;
    match monitor {
        None => {},
        Some(m) => {
            let min_x = m.x + 8;
            let max_x = m.x + m.width - pw - 8;
            let hi_x = if max_x >= min_x {
                max_x
            } else {
                min_x
            };
            x = clamp_exec(x, min_x, hi_x);
            let min_y = m.y + 8;
            let max_y = m.y + m.height - ph - 8;
            let hi_y = if max_y >= min_y {
                max_y
            } else {
                min_y
            };
            y = clamp_exec(y, min_y, hi_y);
        },
    }
    (x, y)
}

// ---------------------------------------------------------------------------
// Laws
// ---------------------------------------------------------------------------

/// Docking left and docking right are mirror images: the island keeps the
/// same distance from the monitor edge it is docked to.
pub proof fn law_left_right_mirror(mx: int, mw: int, win_w: int, off: int)
    ensures
        spec_island_x(Anchor::Left, mx, mw, win_w, off) - mx == (mx + mw) - (spec_island_x(
            Anchor::Right,
            mx,
            mw,
            win_w,
            off,
        ) + win_w),
{
}

/// A panel opened on a known monitor starts at least the edge gap inside its
/// left and top edges, and also inside its right and bottom edges whenever
/// the panel fits on the monitor.
pub proof fn law_panel_stays_on_monitor(
    ix: int,
    iy: int,
    iw: int,
    ih: int,
    pw: int,
    ph: int,
    m: Monitor,
)
    ensures
        ({
            let (x, y) = spec_panel_position(ix, iy, iw, ih, pw, ph, Some(m));
            &&& x >= m.x + edge_gap()
            &&& y >= m.y + edge_gap()
            &&& (pw + 2 * edge_gap() <= m.width ==> x + pw + edge_gap() <= m.x + m.width)
            &&& (ph + 2 * edge_gap() <= m.height ==> y + ph + edge_gap() <= m.y + m.height)
        }),
{
}

/// The nudge moves the island one pixel per pixel of offset, whatever its
/// sign: to the right for the left and centre anchors, mirrored (to the left)
/// for the right anchor.
pub proof fn law_nudge_shifts_island(anchor: Anchor, mx: int, mw: int, win_w: int, off: int)
    ensures
        spec_island_x(anchor, mx, mw, win_w, off) - spec_island_x(anchor, mx, mw, win_w, 0) == (
        match anchor {
            Anchor::Right => -off,
            _ => off,
        }),
{
}

/// Without a nudge, a centred island leaves equal room on both sides of the
/// monitor, up to the one pixel an odd difference cannot split; a left-docked
/// island touches the left edge and a right-docked one the right edge.
pub proof fn law_unnudged_placement(mx: int, mw: int, win_w: int)
    ensures
        ({
            let x = spec_island_x(Anchor::Center, mx, mw, win_w, 0);
            let left_room = x - mx;
            let right_room = (mx + mw) - (x + win_w);
            -1 <= left_room - right_room <= 1
        }),
        spec_island_x(Anchor::Left, mx, mw, win_w, 0) == mx,
        spec_island_x(Anchor::Right, mx, mw, win_w, 0) + win_w == mx + mw,
{
}

} // verus!
