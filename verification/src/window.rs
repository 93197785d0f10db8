//! Where the panel window goes when shown: next to the mouse cursor on X11
//! (clamped into the monitor under the cursor so it never spills off
//! screen), centered by the compositor otherwise. Querying the cursor, the
//! window and the monitors, and moving the window, is left to the caller.

use vstd::prelude::*;
use crate::text::str_eq;

verus! {

/// The panel's logical size, the same for every session.
pub const PANEL_WIDTH: u32 = 380;
pub const PANEL_HEIGHT: u32 = 520;

/// The outer size assumed when the window cannot report one.
pub const FALLBACK_OUTER_WIDTH: u32 = 460;
pub const FALLBACK_OUTER_HEIGHT: u32 = 520;

/// A monitor's area in physical pixels.
#[derive(Clone, Copy, PartialEq, Eq, Debug, Structural)]
pub struct Rect {
    pub x: i32,
    pub y: i32,
    pub width: u32,
    pub height: u32,
}

/// Where the panel goes.
#[derive(Clone, Copy, PartialEq, Eq, Debug, Structural)]
pub enum Placement {
    /// Let the compositor center it.
    Center,
    /// Put its top-left corner here (physical pixels).
    At(i64, i64),
}

/// Whether the point lies in the monitor.
pub open spec fn holds_point(m: Rect, cx: int, cy: int) -> bool {
    m.x <= cx < m.x + m.width && m.y <= cy < m.y + m.height
}

/// The first monitor of the list that holds the point.
pub open spec fn first_holding(ms: Seq<Rect>, cx: int, cy: int) -> Option<Rect>
    decreases ms.len(),
{
    if ms.len() == 0 {
        None
    } else if holds_point(ms[0], cx, cy) {
        Some(ms[0])
    } else {
        first_holding(ms.drop_first(), cx, cy)
    }
}

/// The larger of two integers.
pub open spec fn max_int(a: int, b: int) -> int {
    if a >= b {
        a
    } else {
        b
    }
}

/// The smaller of two integers.
pub open spec fn min_int(a: int, b: int) -> int {
    if a <= b {
        a
    } else {
        b
    }
}

/// `v` clamped into `lo..=hi` (with `lo <= hi`).
pub open spec fn clamp_int(v: int, lo: int, hi: int) -> int {
    max_int(lo, min_int(v, hi))
}

/// One coordinate: 8 px past the cursor; if that spills past the far edge,
/// flip to before the cursor (not past the near edge); then clamp into the
/// monitor (a monitor smaller than the panel pins it to the near edge).
pub open spec fn axis_spec(c: int, size: int, lo: int, extent: int) -> int {
    let hi = lo + extent - size;
    let v = if c + 8 > hi {
        max_int(c - size - 8, lo)
    } else {
        c + 8
    };
    clamp_int(v, lo, max_int(hi, lo))
}

/// The placement: centered unless the mode is "cursor" on X11 and the cursor
/// is known; then 8 px right of / below the cursor, kept inside the monitor
/// that holds the cursor (or, when none does, the window's current one).
pub open spec fn placement_spec(
    cursor_mode: bool,
    x11: bool,
    cursor: Option<(i32, i32)>,
    outer: Option<(u32, u32)>,
    monitors: Seq<Rect>,
    current: Option<Rect>,
) -> Placement {
    if !cursor_mode || !x11 {
        Placement::Center
    } else {
        match cursor {
            None => Placement::Center,
            Some((cx, cy)) => {
                let (w, h) = match outer {
                    Some((w, h)) => (w as int, h as int),
                    None => (FALLBACK_OUTER_WIDTH as int, FALLBACK_OUTER_HEIGHT as int),
                };
                let mon = match first_holding(monitors, cx as int, cy as int) {
                    Some(m) => Some(m),
                    None => current,
                };
                match mon {
                    None => Placement::At((cx + 8) as i64, (cy + 8) as i64),
                    Some(m) => Placement::At(
                        axis_spec(cx as int, w, m.x as int, m.width as int) as i64,
                        axis_spec(cy as int, h, m.y as int, m.height as int) as i64,
                    ),
                }
            },
        }
    }
}

/// One coordinate of the placement (see `axis_spec`).
fn axis(c: i64, size: i64, lo: i64, extent: i64) -> (r: i64)
    requires
        -0x1_0000_0000 <= c <= 0x1_0000_0000,
        0 <= size <= 0x1_0000_0000,
        -0x1_0000_0000 <= lo <= 0x1_0000_0000,
        0 <= extent <= 0x1_0000_0000,
    ensures
        r == axis_spec(c as int, size as int, lo as int, extent as int),
{
    let hi = lo + extent - size;
    let mut v = c + 8;
    if v > hi {
        let back = c - size - 8;
        v = if back >= lo {
            back
        } else {
            lo
        };
    }
    let top = if hi >= lo {
        hi
    } else {
        lo
    };
    if v > top {
        v = top;
    }
    if v < lo {
        v = lo;
    }
    v
}

/// The first monitor of the list that holds the point.
fn monitor_holding(monitors: &Vec<Rect>, cx: i32, cy: i32) -> (r: Option<Rect>)
    ensures
        r == first_holding(monitors@, cx as int, cy as int),
{
    let n = monitors.len();
    let mut i: usize = 0;
    assert(monitors@.subrange(0, n as int) =~= monitors@);
    while i < n
        invariant
            n == monitors@.len(),
            i <= n,
            first_holding(monitors@, cx as int, cy as int) == first_holding(
                monitors@.subrange(i as int, n as int),
                cx as int,
                cy as int,
            ),
        decreases n - i,
    {
        let m = monitors[i];
        let ghost rest = monitors@.subrange(i as int, n as int);
        assert(rest[0] == m);
        let mx = m.x as i64;
        let my = m.y as i64;
        let cxx = cx as i64;
        let cyy = cy as i64;
        if cxx >= mx && cxx < mx + m.width as i64 && cyy >= my && cyy < my + m.height as i64 {
            return Some(m);
        }
        assert(rest.drop_first() =~= monitors@.subrange(i as int + 1, n as int));
        i = i + 1;
    }
    assert(monitors@.subrange(n as int, n as int) =~= Seq::<Rect>::empty());
    None
}

/// Where to put the panel. `position_mode` is the setting ("cursor" or
/// "center"), `kind` the session kind; `cursor` is the mouse position,
/// `outer` the window's outer size (each `None` when it could not be read),
/// `monitors` the available monitors in order and `current` the one the
/// window is on.
pub fn panel_placement(
    position_mode: &str,
    kind: &str,
    cursor: Option<(i32, i32)>,
    outer: Option<(u32, u32)>,
    monitors: &Vec<Rect>,
    current: Option<Rect>,
) -> (r: Placement)
    ensures
        r == placement_spec(
            position_mode@ == "cursor"@,
            kind@ == "x11"@,
            cursor,
            outer,
            monitors@,
            current,
        ),
{
    if !str_eq(position_mode, "cursor") || !str_eq(kind, "x11") {
        return Placement::Center;
    }
    let (cx, cy) = match cursor {
        None => return Placement::Center,
        Some(c) => c,
    };
    let (w, h): (i64, i64) = match outer {
        Some((w, h)) => (w as i64, h as i64),
        None => (FALLBACK_OUTER_WIDTH as i64, FALLBACK_OUTER_HEIGHT as i64),
    };
    let mon = match monitor_holding(monitors, cx, cy) {
        Some(m) => Some(m),
        None => current,
    };
    match mon {
        None => Placement::At(cx as i64 + 8, cy as i64 + 8),
        Some(m) => {
            let x = axis(cx as i64, w, m.x as i64, m.width as i64);
            let y = axis(cy as i64, h, m.y as i64, m.height as i64);
            Placement::At(x, y)
        },
    }
}


/// The panel never spills off the monitor: when it fits in the monitor's
/// extent, each coordinate puts it wholly inside.
pub proof fn law_panel_inside_monitor(c: int, size: int, lo: int, extent: int)
    requires
        0 <= size <= extent,
    ensures
        lo <= axis_spec(c, size, lo, extent),
        axis_spec(c, size, lo, extent) + size <= lo + extent,
{
}

/// Next to the cursor when there is room: when 8 px past the cursor the
/// panel still fits, it goes exactly there.
pub proof fn law_panel_beside_cursor(c: int, size: int, lo: int, extent: int)
    requires
        0 <= size <= extent,
        lo <= c + 8,
        c + 8 + size <= lo + extent,
    ensures
        axis_spec(c, size, lo, extent) == c + 8,
{
}


proof fn lemma_first_holding_at(ms: Seq<Rect>, cx: int, cy: int, k: int)
    requires
        0 <= k < ms.len(),
        holds_point(ms[k], cx, cy),
        forall|j: int| 0 <= j < k ==> !holds_point(#[trigger] ms[j], cx, cy),
    ensures
        first_holding(ms, cx, cy) == Some(ms[k]),
    decreases k,
{
    if k > 0 {
        assert(!holds_point(ms[0], cx, cy));
        let rest = ms.drop_first();
        assert forall|j: int| 0 <= j < k - 1 implies !holds_point(#[trigger] rest[j], cx, cy) by {
            assert(rest[j] == ms[j + 1]);
        }
        lemma_first_holding_at(rest, cx, cy, k - 1);
    }
}

proof fn lemma_first_holding_some(ms: Seq<Rect>, cx: int, cy: int, k: int)
    requires
        0 <= k < ms.len(),
        holds_point(ms[k], cx, cy),
    ensures
        first_holding(ms, cx, cy) is Some,
    decreases k,
{
    if k > 0 && !holds_point(ms[0], cx, cy) {
        assert(ms.drop_first()[k - 1] == ms[k]);
        lemma_first_holding_some(ms.drop_first(), cx, cy, k - 1);
    }
}

/// The monitor under the cursor decides: in cursor mode on X11, once some
/// monitor of the list holds the cursor, the monitor the window is
/// currently on plays no part in where the panel goes.
pub proof fn law_current_monitor_irrelevant(
    outer: Option<(u32, u32)>,
    monitors: Seq<Rect>,
    cx: i32,
    cy: i32,
    k: int,
    current1: Option<Rect>,
    current2: Option<Rect>,
)
    requires
        0 <= k < monitors.len(),
        holds_point(monitors[k], cx as int, cy as int),
    ensures
        placement_spec(true, true, Some((cx, cy)), outer, monitors, current1) == placement_spec(
            true,
            true,
            Some((cx, cy)),
            outer,
            monitors,
            current2,
        ),
{
    lemma_first_holding_some(monitors, cx as int, cy as int, k);
}

/// Next to the cursor, on the monitor under it: in cursor mode on X11, with
/// the cursor in monitor `k` (the first of the list that holds it) and room
/// there for the panel 8 px right of and below the cursor, the panel goes
/// exactly there, wholly inside that monitor, whatever monitor the window
/// was on before.
pub proof fn law_panel_next_to_cursor(
    w: u32,
    h: u32,
    monitors: Seq<Rect>,
    cx: i32,
    cy: i32,
    k: int,
    current: Option<Rect>,
)
    requires
        0 <= k < monitors.len(),
        holds_point(monitors[k], cx as int, cy as int),
        forall|j: int| 0 <= j < k ==> !holds_point(#[trigger] monitors[j], cx as int, cy as int),
        cx + 8 + w <= monitors[k].x + monitors[k].width,
        cy + 8 + h <= monitors[k].y + monitors[k].height,
    ensures
        placement_spec(true, true, Some((cx, cy)), Some((w, h)), monitors, current)
            == Placement::At((cx + 8) as i64, (cy + 8) as i64),
        monitors[k].x <= cx + 8,
        cx + 8 + w <= monitors[k].x + monitors[k].width,
        monitors[k].y <= cy + 8,
        cy + 8 + h <= monitors[k].y + monitors[k].height,
{
    let m = monitors[k];
    lemma_first_holding_at(monitors, cx as int, cy as int, k);
    law_panel_beside_cursor(cx as int, w as int, m.x as int, m.width as int);
    law_panel_beside_cursor(cy as int, h as int, m.y as int, m.height as int);
}

/// Centered unless asked for: outside cursor mode, off X11, or with the
/// cursor position unknown, the compositor centers the panel.
pub proof fn law_panel_centered(
    cursor_mode: bool,
    x11: bool,
    cursor: Option<(i32, i32)>,
    outer: Option<(u32, u32)>,
    monitors: Seq<Rect>,
    current: Option<Rect>,
)
    requires
        !cursor_mode || !x11 || cursor is None,
    ensures
        placement_spec(cursor_mode, x11, cursor, outer, monitors, current) == Placement::Center,
{
}

/// Flipped before the cursor at the far edge: with the cursor on the
/// monitor, when 8 px past the cursor the panel would spill past the far
/// edge but 8 px before it there is room, the panel ends 8 px before the
/// cursor.
pub proof fn law_panel_flips_before_cursor(c: int, size: int, lo: int, extent: int)
    requires
        0 <= size <= extent,
        c < lo + extent,
        c + 8 + size > lo + extent,
        lo <= c - size - 8,
    ensures
        axis_spec(c, size, lo, extent) == c - size - 8,
{
}

/// On the monitor under the cursor: in cursor mode on X11, with the cursor
/// in monitor `k` (the first of the list that holds it) and the panel no
/// larger than that monitor, the panel lies wholly inside it, whatever
/// monitor the window was on before.
pub proof fn law_panel_on_cursor_monitor(
    w: u32,
    h: u32,
    monitors: Seq<Rect>,
    cx: i32,
    cy: i32,
    k: int,
    current: Option<Rect>,
)
    requires
        0 <= k < monitors.len(),
        holds_point(monitors[k], cx as int, cy as int),
        forall|j: int| 0 <= j < k ==> !holds_point(#[trigger] monitors[j], cx as int, cy as int),
        w <= monitors[k].width,
        h <= monitors[k].height,
    ensures
        ({
            let r = placement_spec(true, true, Some((cx, cy)), Some((w, h)), monitors, current);
            let m = monitors[k];
            &&& r is At
            &&& m.x <= r->0 && r->0 + w <= m.x + m.width
            &&& m.y <= r->1 && r->1 + h <= m.y + m.height
        }),
{
    let m = monitors[k];
    lemma_first_holding_at(monitors, cx as int, cy as int, k);
    law_panel_inside_monitor(cx as int, w as int, m.x as int, m.width as int);
    law_panel_inside_monitor(cy as int, h as int, m.y as int, m.height as int);
}

/// Off every monitor, the window's own monitor keeps it: in cursor mode on
/// X11, when no monitor of the list holds the cursor, the panel (no larger
/// than the window's current monitor) lies wholly inside that monitor; with
/// no current monitor either, it goes 8 px right of and below the cursor.
pub proof fn law_panel_off_monitors(
    w: u32,
    h: u32,
    monitors: Seq<Rect>,
    cx: i32,
    cy: i32,
    current: Option<Rect>,
)
    requires
        forall|j: int| 0 <= j < monitors.len() ==> !holds_point(#[trigger] monitors[j], cx as int, cy as int),
        current matches Some(m) ==> w <= m.width && h <= m.height,
    ensures
        ({
            let r = placement_spec(true, true, Some((cx, cy)), Some((w, h)), monitors, current);
            &&& r is At
            &&& current matches Some(m) ==> m.x <= r->0 && r->0 + w <= m.x + m.width && m.y
                <= r->1 && r->1 + h <= m.y + m.height
            &&& current is None ==> r == Placement::At((cx + 8) as i64, (cy + 8) as i64)
        }),
{
    lemma_first_holding_none(monitors, cx as int, cy as int);
    if let Some(m) = current {
        law_panel_inside_monitor(cx as int, w as int, m.x as int, m.width as int);
        law_panel_inside_monitor(cy as int, h as int, m.y as int, m.height as int);
    }
}

proof fn lemma_first_holding_none(ms: Seq<Rect>, cx: int, cy: int)
    requires
        forall|j: int| 0 <= j < ms.len() ==> !holds_point(#[trigger] ms[j], cx, cy),
    ensures
        first_holding(ms, cx, cy) is None,
    decreases ms.len(),
{
    if ms.len() > 0 {
        let rest = ms.drop_first();
        assert(!holds_point(ms[0], cx, cy));
        assert forall|j: int| 0 <= j < rest.len() implies !holds_point(#[trigger] rest[j], cx, cy) by {
            assert(rest[j] == ms[j + 1]);
        }
        lemma_first_holding_none(rest, cx, cy);
    }
}

} // verus!
