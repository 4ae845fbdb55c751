use vstd::prelude::*;

use crate::style_editor::{contains_point, pt_in_rect, Rect};
use crate::widget::{clamp_offset_for_taskbar, clamped_offset, compute_anchor_y};

verus! {

/// The bound on screen coordinates and sizes that the placement arithmetic
/// takes, far beyond any display.
pub const MAX_SCREEN_COORD: i32 = 0x1000_0000;

/// Where the widget goes on its taskbar.
#[derive(Clone, Copy, Debug, PartialEq, Eq, Structural)]
pub struct WidgetPlacement {
    /// The offset from the tray, clamped to the room on the taskbar.
    pub tray_offset: i32,
    /// Left edge: relative to the taskbar when embedded in it, else on screen.
    pub x: i32,
    /// Top edge, relative in the same way.
    pub y: i32,
    pub width: i32,
    pub height: i32,
}

/// A coordinate within the placement bound.
pub open spec fn in_screen_range(v: int) -> bool {
    -MAX_SCREEN_COORD <= v <= MAX_SCREEN_COORD
}

/// Top of a widget `widget_height` tall centred in the anchor.
pub open spec fn anchored_y(anchor_top: int, anchor_height: int, widget_height: int) -> int {
    anchor_top + (if anchor_height - widget_height > 0 {
        anchor_height - widget_height
    } else {
        0
    }) / 2
}

/// Places the widget left of the tray, `tray_offset` further left as far as
/// the taskbar has room, centred vertically on the taskbar. An embedded widget
/// is positioned relative to the taskbar, a floating one on the screen.
pub fn place_widget(
    taskbar: Rect,
    tray_left: i32,
    widget_width: i32,
    widget_height: i32,
    tray_offset: i32,
    embedded: bool,
) -> (p: WidgetPlacement)
    requires
        in_screen_range(taskbar.left as int),
        in_screen_range(taskbar.top as int),
        in_screen_range(taskbar.right as int),
        in_screen_range(taskbar.bottom as int),
        in_screen_range(tray_left as int),
        0 <= widget_width <= MAX_SCREEN_COORD,
        0 <= widget_height <= MAX_SCREEN_COORD,
    ensures
        p.tray_offset == clamped_offset(
            tray_left as int,
            taskbar.left as int,
            widget_width as int,
            tray_offset as int,
        ),
        p.width == widget_width,
        p.height == widget_height,
        embedded ==> p.x == tray_left - taskbar.left - widget_width - p.tray_offset,
        embedded ==> p.y == anchored_y(
            taskbar.top as int,
            taskbar.bottom - taskbar.top,
            widget_height as int,
        ) - taskbar.top,
        !embedded ==> p.x == tray_left - widget_width - p.tray_offset,
        0 <= p.tray_offset,
        embedded && widget_width <= tray_left - taskbar.left ==> 0 <= p.x && p.x + p.width
            <= tray_left - taskbar.left,
        !embedded && widget_width <= tray_left - taskbar.left ==> taskbar.left <= p.x && p.x
            + p.width <= tray_left,
        !embedded ==> p.y == anchored_y(
            taskbar.top as int,
            taskbar.bottom - taskbar.top,
            widget_height as int,
        ),
{
    let offset = clamp_offset_for_taskbar(tray_left, taskbar.left, widget_width, tray_offset);
    let taskbar_height = taskbar.bottom - taskbar.top;
    let y = compute_anchor_y(taskbar.top, taskbar_height, widget_height);
    assert(offset <= MAX_SCREEN_COORD * 3);
    if embedded {
        WidgetPlacement {
            tray_offset: offset,
            x: tray_left - taskbar.left - widget_width - offset,
            y: y - taskbar.top,
            width: widget_width,
            height: widget_height,
        }
    } else {
        WidgetPlacement {
            tray_offset: offset,
            x: tray_left - widget_width - offset,
            y,
            width: widget_width,
            height: widget_height,
        }
    }
}

/// The small-taskbar mode after measuring the taskbar, with whether the
/// weekly window is the one shown: entering small mode shows the session
/// window first; otherwise the choice stays.
pub fn small_mode_transition(small_mode: bool, small_show_weekly: bool, now_small: bool) -> (r: (
    bool,
    bool,
))
    ensures
        r.0 == now_small,
        r.1 == if now_small && !small_mode {
            false
        } else {
            small_show_weekly
        },
{
    if small_mode != now_small {
        if now_small {
            return (true, false);
        }
        return (false, small_show_weekly);
    }
    (small_mode, small_show_weekly)
}

/// The left edge of the tray: that of the notification area where it was
/// found, else the taskbar's right edge.
pub fn tray_left_for_taskbar(taskbar: Rect, tray_rect: Option<Rect>) -> (left: i32)
    ensures
        left == match tray_rect {
            Some(r) => r.left,
            None => taskbar.right,
        },
{
    let mut tray_left = taskbar.right;
    if let Some(r) = tray_rect {
        tray_left = r.left;
    }
    tray_left
}

/// The first taskbar whose rectangle holds the point `(x, y)`.
pub fn taskbar_at_point(taskbars: &Vec<Rect>, x: i32, y: i32) -> (hit: Option<usize>)
    ensures
        match hit {
            Some(i) => i < taskbars@.len() && contains_point(taskbars@[i as int], x as int, y as int)
                && forall|j: int| 0 <= j < i ==> !contains_point(#[trigger] taskbars@[j], x as int, y as int),
            None => forall|j: int| 0 <= j < taskbars@.len() ==> !contains_point(#[trigger] taskbars@[j], x as int, y as int),
        },
{
    let mut i: usize = 0;
    while i < taskbars.len()
        invariant
            i <= taskbars@.len(),
            forall|j: int| 0 <= j < i ==> !contains_point(#[trigger] taskbars@[j], x as int, y as int),
        decreases taskbars.len() - i,
    {
        if pt_in_rect(taskbars[i], x, y) {
            return Some(i);
        }
        i = i + 1;
    }
    None
}

/// The taskbar to use for a requested index: the last one where the index is
/// past the end, none when there is no taskbar.
pub fn select_taskbar_index(requested: usize, count: usize) -> (index: Option<usize>)
    ensures
        count == 0 ==> index is None,
        count > 0 ==> index == Some(if requested < count { requested } else { (count - 1) as usize }),
{
    if count == 0 {
        return None;
    }
    let last = count - 1;
    Some(if requested < last {
        requested
    } else {
        last
    })
}

/// Law: dragging the widget so that its left edge, from the taskbar's left,
/// is at `drag_left` gives the offset from the tray that places it exactly
/// there, as long as it fits between the taskbar's left edge and the tray;
/// past either end it stops at that end.
pub proof fn lemma_drag_offset_places_widget(tray_left: int, taskbar_left: int, widget_width: int, drag_left: int)
    ensures
        ({
            let room = tray_left - taskbar_left - widget_width;
            let offset = clamped_offset(tray_left, taskbar_left, widget_width, room - drag_left);
            &&& (0 <= drag_left <= room ==> room - offset == drag_left)
            &&& (drag_left < 0 && room >= 0 ==> room - offset == 0)
            &&& (drag_left > room && room >= 0 ==> room - offset == room)
        }),
{
}

} // verus!
