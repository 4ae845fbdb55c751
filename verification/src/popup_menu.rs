use vstd::prelude::*;

use crate::color::Color;
use crate::style_editor::Rect;
use crate::text::to_string;
use crate::widget::{dpi_scaled, MAX_LAYOUT_DPI};

verus! {

/// Width of the root menu at 96 DPI.
pub const ROOT_WIDTH: i32 = 300;

/// Width of a submenu at 96 DPI.
pub const SUBMENU_WIDTH: i32 = 238;

/// Padding around the items at 96 DPI.
pub const OUTER_PADDING: i32 = 8;

/// Height of an item at 96 DPI.
pub const ITEM_HEIGHT: i32 = 40;

/// Height of a separator at 96 DPI.
pub const SEPARATOR_HEIGHT: i32 = 14;

/// The most items a menu holds, keeping its height within 32 bits.
pub const MAX_MENU_ITEMS: usize = 10_000;

/// What choosing an item does.
#[derive(Debug)]
pub enum PopupAction {
    /// Sends the command with this identifier.
    Command(u16),
    /// Nothing: a dividing line.
    Separator,
    /// Opens the nested menu.
    Submenu(Vec<PopupItem>),
}

/// An entry of a popup menu.
#[derive(Debug)]
pub struct PopupItem {
    pub text: String,
    pub enabled: bool,
    pub action: PopupAction,
}

impl PopupItem {
    /// An enabled item that sends `command`.
    pub fn command(text: &str, command: u16) -> (item: Self)
        ensures
            item.text@ == text@,
            item.enabled,
            item.action == PopupAction::Command(command),
    {
        PopupItem { text: to_string(text), enabled: true, action: PopupAction::Command(command) }
    }

    /// A greyed-out item that would send `command`.
    pub fn disabled_command(text: &str, command: u16) -> (item: Self)
        ensures
            item.text@ == text@,
            !item.enabled,
            item.action == PopupAction::Command(command),
    {
        PopupItem { text: to_string(text), enabled: false, action: PopupAction::Command(command) }
    }

    /// A dividing line.
    pub fn separator() -> (item: Self)
        ensures
            item.text@ == Seq::<char>::empty(),
            !item.enabled,
            item.action is Separator,
    {
        PopupItem { text: String::new(), enabled: false, action: PopupAction::Separator }
    }

    /// An enabled item that opens a menu of `items`.
    pub fn submenu(text: &str, items: Vec<PopupItem>) -> (item: Self)
        ensures
            item.text@ == text@,
            item.enabled,
            item.action == PopupAction::Submenu(items),
    {
        PopupItem { text: to_string(text), enabled: true, action: PopupAction::Submenu(items) }
    }
}

/// The colours of a menu.
#[derive(Clone, Copy, Debug, PartialEq, Eq, Structural)]
pub struct Palette {
    pub background: Color,
    pub hover: Color,
    pub border: Color,
    pub text: Color,
    pub disabled: Color,
    pub separator: Color,
}

/// An opaque grey.
pub open spec fn grey(v: u8) -> Color {
    Color { r: v, g: v, b: v, a: 255 }
}

impl Palette {
    /// The colours that follow the Windows light or dark theme.
    pub fn for_windows_theme(dark: bool) -> (p: Self)
        ensures
            dark ==> p == (Palette {
                background: grey(0x1F),
                hover: Color { r: 0x2D, g: 0x2D, b: 0x2F, a: 255 },
                border: grey(0x34),
                text: grey(0xF4),
                disabled: grey(0x85),
                separator: grey(0x4A),
            }),
            !dark ==> p == (Palette {
                background: grey(0xFA),
                hover: Color { r: 0xEE, g: 0xEE, b: 0xF0, a: 255 },
                border: grey(0xD8),
                text: grey(0x20),
                disabled: grey(0x92),
                separator: grey(0xDE),
            }),
    {
        if dark {
            Palette {
                background: Color::rgba(0x1F, 0x1F, 0x1F, 0xFF),
                hover: Color::rgba(0x2D, 0x2D, 0x2F, 0xFF),
                border: Color::rgba(0x34, 0x34, 0x34, 0xFF),
                text: Color::rgba(0xF4, 0xF4, 0xF4, 0xFF),
                disabled: Color::rgba(0x85, 0x85, 0x85, 0xFF),
                separator: Color::rgba(0x4A, 0x4A, 0x4A, 0xFF),
            }
        } else {
            Palette {
                background: Color::rgba(0xFA, 0xFA, 0xFA, 0xFF),
                hover: Color::rgba(0xEE, 0xEE, 0xF0, 0xFF),
                border: Color::rgba(0xD8, 0xD8, 0xD8, 0xFF),
                text: Color::rgba(0x20, 0x20, 0x20, 0xFF),
                disabled: Color::rgba(0x92, 0x92, 0x92, 0xFF),
                separator: Color::rgba(0xDE, 0xDE, 0xDE, 0xFF),
            }
        }
    }
}

/// A menu length at 96 DPI scaled to `dpi`, rounded to nearest.
pub fn scale_for_dpi(value: i32, dpi: u32) -> (v: i32)
    requires
        0 <= value <= 1000,
        dpi <= MAX_LAYOUT_DPI,
    ensures
        v == dpi_scaled(value as int, dpi as int),
        v == (value * dpi + 48) / 96,
        0 <= v <= 1_000_001,
{
    assert(0 <= value * dpi <= 1000 * 96000) by (nonlinear_arith)
        requires
            0 <= value <= 1000,
            0 <= dpi <= 96000,
    ;
    let n: i32 = value * (dpi as i32);
    (n + 48) / 96
}

/// Height of one item at `dpi`: a separator is thinner.
pub open spec fn item_h(item: PopupItem, dpi: int) -> int {
    dpi_scaled(
        if item.action is Separator {
            14
        } else {
            40
        },
        dpi,
    )
}

/// Height of the first `n` items together.
pub open spec fn items_height(items: Seq<PopupItem>, n: int, dpi: int) -> int
    decreases n,
{
    if n <= 0 {
        0
    } else {
        items_height(items, n - 1, dpi) + item_h(items[n - 1], dpi)
    }
}

/// Top of row `i` in the menu: the padding and the rows above it.
pub open spec fn row_top(items: Seq<PopupItem>, i: int, dpi: int) -> int {
    dpi_scaled(8, dpi) + items_height(items, i, dpi)
}

proof fn lemma_items_height_bounds(items: Seq<PopupItem>, n: int, dpi: int)
    requires
        0 <= n,
        0 <= dpi <= 96000,
    ensures
        0 <= items_height(items, n, dpi) <= n * 40000,
    decreases n,
{
    if n > 0 {
        lemma_items_height_bounds(items, n - 1, dpi);
        assert(0 <= 14 * dpi <= 14 * 96000) by (nonlinear_arith)
            requires
                0 <= dpi <= 96000,
        ;
        assert(0 <= 40 * dpi <= 40 * 96000) by (nonlinear_arith)
            requires
                0 <= dpi <= 96000,
        ;
    }
}

/// Rows further down start no higher.
proof fn lemma_items_height_monotone(items: Seq<PopupItem>, a: int, b: int, dpi: int)
    requires
        0 <= a <= b,
        0 <= dpi <= 96000,
    ensures
        items_height(items, a, dpi) <= items_height(items, b, dpi),
    decreases b - a,
{
    if a < b {
        lemma_items_height_monotone(items, a, b - 1, dpi);
        lemma_items_height_bounds(items, b, dpi);
        assert(0 <= 14 * dpi && 0 <= 40 * dpi) by (nonlinear_arith)
            requires
                0 <= dpi,
        ;
    }
}

/// Height of one item at `dpi`.
pub fn item_height(item: &PopupItem, dpi: u32) -> (h: i32)
    requires
        dpi <= MAX_LAYOUT_DPI,
    ensures
        h == item_h(*item, dpi as int),
        0 <= h <= 40000,
{
    assert(0 <= 40 * dpi <= 40 * 96000) by (nonlinear_arith)
        requires
            0 <= dpi <= 96000,
    ;
    let logical = match item.action {
        PopupAction::Separator => SEPARATOR_HEIGHT,
        _ => ITEM_HEIGHT,
    };
    assert(logical * dpi <= 40 * 96000) by (nonlinear_arith)
        requires
            0 <= logical <= 40,
            0 <= dpi <= 96000,
    ;
    scale_for_dpi(logical, dpi)
}

/// Height of a menu of `items`: the rows and the padding above and below.
pub fn menu_height(items: &Vec<PopupItem>, dpi: u32) -> (h: i32)
    requires
        dpi <= MAX_LAYOUT_DPI,
        items@.len() <= MAX_MENU_ITEMS,
    ensures
        h == 2 * dpi_scaled(8, dpi as int) + items_height(items@, items@.len() as int, dpi as int),
{
    let padding = scale_for_dpi(OUTER_PADDING, dpi);
    let mut total: i32 = 0;
    let mut i: usize = 0;
    while i < items.len()
        invariant
            i <= items@.len() <= MAX_MENU_ITEMS,
            dpi <= MAX_LAYOUT_DPI,
            total == items_height(items@, i as int, dpi as int),
        decreases items.len() - i,
    {
        proof {
            lemma_items_height_bounds(items@, i as int, dpi as int);
        }
        total = total + item_height(&items[i], dpi);
        i = i + 1;
    }
    proof {
        lemma_items_height_bounds(items@, items@.len() as int, dpi as int);
    }
    padding * 2 + total
}

/// The rectangle of item `index` in a menu `width` pixels wide.
pub fn item_rect(items: &Vec<PopupItem>, index: usize, width: i32, dpi: u32) -> (r: Rect)
    requires
        dpi <= MAX_LAYOUT_DPI,
        items@.len() <= MAX_MENU_ITEMS,
        index < items@.len(),
        width >= i32::MIN + 1_000_001,
    ensures
        r == (Rect {
            left: dpi_scaled(8, dpi as int) as i32,
            top: row_top(items@, index as int, dpi as int) as i32,
            right: (width - dpi_scaled(8, dpi as int)) as i32,
            bottom: row_top(items@, index as int + 1, dpi as int) as i32,
        }),
        r.top == row_top(items@, index as int, dpi as int),
        r.bottom == row_top(items@, index as int + 1, dpi as int),
{
    let padding = scale_for_dpi(OUTER_PADDING, dpi);
    let mut top = padding;
    let mut i: usize = 0;
    while i < index
        invariant
            i <= index < items@.len() <= MAX_MENU_ITEMS,
            dpi <= MAX_LAYOUT_DPI,
            padding == dpi_scaled(8, dpi as int),
            0 <= padding <= 1_000_001,
            top == padding + items_height(items@, i as int, dpi as int),
        decreases index - i,
    {
        proof {
            lemma_items_height_bounds(items@, i as int, dpi as int);
        }
        top = top + item_height(&items[i], dpi);
        i = i + 1;
    }
    proof {
        lemma_items_height_bounds(items@, index as int, dpi as int);
    }
    Rect { left: padding, top, right: width - padding, bottom: top + item_height(&items[index], dpi) }
}

/// The item under the vertical position `y`: the row whose span holds `y`,
/// unless that row is a separator.
#[verifier::spinoff_prover]
pub fn hit_item(items: &Vec<PopupItem>, y: i32, dpi: u32) -> (hit: Option<usize>)
    requires
        dpi <= MAX_LAYOUT_DPI,
        items@.len() <= MAX_MENU_ITEMS,
    ensures
        match hit {
            Some(i) => i < items@.len() && row_top(items@, i as int, dpi as int) <= y < row_top(
                items@,
                i as int + 1,
                dpi as int,
            ) && !(items@[i as int].action is Separator),
            None => forall|i: int|
                0 <= i < items@.len() && #[trigger] row_top(items@, i, dpi as int) <= y < row_top(
                    items@,
                    i + 1,
                    dpi as int,
                ) ==> items@[i].action is Separator,
        },
{
    let padding = scale_for_dpi(OUTER_PADDING, dpi);
    let mut top = padding;
    let mut i: usize = 0;
    while i < items.len()
        invariant
            i <= items@.len() <= MAX_MENU_ITEMS,
            dpi <= MAX_LAYOUT_DPI,
            padding == dpi_scaled(8, dpi as int),
            0 <= padding <= 1_000_001,
            top == row_top(items@, i as int, dpi as int),
            forall|j: int|
                0 <= j < i ==> !(#[trigger] row_top(items@, j, dpi as int) <= y < row_top(
                    items@,
                    j + 1,
                    dpi as int,
                )),
        decreases items.len() - i,
    {
        proof {
            lemma_items_height_bounds(items@, i as int, dpi as int);
        }
        let bottom = top + item_height(&items[i], dpi);
        assert(bottom == row_top(items@, i as int + 1, dpi as int));
        if y >= top && y < bottom {
            let is_separator = match items[i].action {
                PopupAction::Separator => true,
                _ => false,
            };
            assert(is_separator == (items@[i as int].action is Separator));
            if is_separator {
                assert forall|j: int|
                    0 <= j < items@.len() && #[trigger] row_top(items@, j, dpi as int) <= y < row_top(
                        items@,
                        j + 1,
                        dpi as int,
                    ) implies items@[j].action is Separator by {
                    if j > i {
                        lemma_items_height_monotone(items@, i as int + 1, j, dpi as int);
                    }
                }
                return None;
            }
            return Some(i);
        }
        top = bottom;
        i = i + 1;
    }
    None
}

/// `v` limited to `[lo, hi]` (`lo <= hi`).
pub open spec fn clamped(v: int, lo: int, hi: int) -> int {
    if v < lo {
        lo
    } else if v > hi {
        hi
    } else {
        v
    }
}

/// The larger of two integers.
pub open spec fn larger(a: int, b: int) -> int {
    if a >= b {
        a
    } else {
        b
    }
}

/// Where a menu `width` by `height` pixels opens for the point
/// `(desired_x, desired_y)`: flipped to the left or up where it would leave
/// the work area, then kept inside it as far as it fits.
pub open spec fn menu_origin(desired_x: int, desired_y: int, width: int, height: int, work: Rect) -> (int, int) {
    let x0 = if desired_x + width > work.right {
        larger(desired_x - width, work.left as int)
    } else {
        desired_x
    };
    let y0 = if desired_y + height > work.bottom {
        larger(work.bottom - height, work.top as int)
    } else {
        desired_y
    };
    (
        clamped(x0, work.left as int, larger(work.right - width, work.left as int)),
        clamped(y0, work.top as int, larger(work.bottom - height, work.top as int)),
    )
}

/// The top-left corner of a menu opened at `(desired_x, desired_y)` within
/// the work area `work`.
pub fn place_menu(desired_x: i32, desired_y: i32, width: i32, height: i32, work: Rect) -> (p: (i32, i32))
    requires
        0 <= width <= 0x2000_0000,
        0 <= height <= 0x2000_0000,
        -0x2000_0000 <= desired_x <= 0x2000_0000,
        -0x2000_0000 <= desired_y <= 0x2000_0000,
        -0x2000_0000 <= work.left <= 0x2000_0000,
        -0x2000_0000 <= work.top <= 0x2000_0000,
        -0x2000_0000 <= work.right <= 0x2000_0000,
        -0x2000_0000 <= work.bottom <= 0x2000_0000,
    ensures
        p.0 == menu_origin(desired_x as int, desired_y as int, width as int, height as int, work).0,
        p.1 == menu_origin(desired_x as int, desired_y as int, width as int, height as int, work).1,
{
    let mut x = desired_x;
    let mut y = desired_y;
    if x + width > work.right {
        x = if desired_x - width >= work.left {
            desired_x - width
        } else {
            work.left
        };
    }
    if y + height > work.bottom {
        y = if work.bottom - height >= work.top {
            work.bottom - height
        } else {
            work.top
        };
    }
    let max_x = if work.right - width >= work.left {
        work.right - width
    } else {
        work.left
    };
    let max_y = if work.bottom - height >= work.top {
        work.bottom - height
    } else {
        work.top
    };
    let x = if x < work.left {
        work.left
    } else if x > max_x {
        max_x
    } else {
        x
    };
    let y = if y < work.top {
        work.top
    } else if y > max_y {
        max_y
    } else {
        y
    };
    (x, y)
}

} // verus!
