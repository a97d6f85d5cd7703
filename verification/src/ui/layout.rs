//! Places on the screen.
use vstd::prelude::*;

verus! {

/// A rectangle of cells.
#[derive(Debug, Clone, Copy, PartialEq, Eq, Structural)]
pub struct Area {
    pub x: u16,
    pub y: u16,
    pub width: u16,
    pub height: u16,
}

/// What is left of `a` after taking `b` away, and at least nothing.
pub open spec fn less(a: int, b: int) -> int {
    if a > b {
        a - b
    } else {
        0
    }
}

/// The smaller of two numbers.
pub open spec fn least(a: int, b: int) -> int {
    if a < b {
        a
    } else {
        b
    }
}

/// A popup in the middle of a screen: as wide as asked for and high enough for its
/// rows, its frame and its footer, but two cells away from the edges.
pub open spec fn is_popup(p: Area, screen_w: u16, screen_h: u16, width: u16, rows: u16) -> bool {
    &&& p.width == least(width as int, less(screen_w as int, 4))
    &&& p.height == least(rows + 4, less(screen_h as int, 4))
    &&& p.x == (screen_w - p.width) / 2
    &&& p.y == (screen_h - p.height) / 2
}

/// The popup for a number of rows in the middle of a screen.
pub fn popup(screen_w: u16, screen_h: u16, width: u16, rows: u16) -> (r: Area)
    requires
        rows <= u16::MAX - 4,
    ensures
        is_popup(r, screen_w, screen_h, width, rows),
{
    let room_w = screen_w.saturating_sub(4);
    let room_h = screen_h.saturating_sub(4);
    let w = if width < room_w {
        width
    } else {
        room_w
    };
    let h = if rows + 4 < room_h {
        rows + 4
    } else {
        room_h
    };
    Area { x: screen_w.saturating_sub(w) / 2, y: screen_h.saturating_sub(h) / 2, width: w, height: h }
}

/// The inside of a popup: without its frame, and one cell away from it at the sides.
pub open spec fn is_inside_of(i: Area, p: Area) -> bool {
    &&& i.x == p.x + 2
    &&& i.y == p.y + 1
    &&& i.width == less(p.width as int, 4)
    &&& i.height == less(p.height as int, 2)
}

/// The inside of a popup.
pub fn inside(p: &Area) -> (r: Area)
    requires
        p.x <= u16::MAX - 2,
        p.y <= u16::MAX - 1,
    ensures
        is_inside_of(r, *p),
{
    Area {
        x: p.x + 2,
        y: p.y + 1,
        width: p.width.saturating_sub(4),
        height: p.height.saturating_sub(2),
    }
}

/// A popup lies on the screen, and is as far from the left edge as from the right one,
/// and from the top as from the bottom, up to one cell.
pub proof fn law_popup_is_centred(p: Area, screen_w: u16, screen_h: u16, width: u16, rows: u16)
    requires
        is_popup(p, screen_w, screen_h, width, rows),
    ensures
        p.x + p.width <= screen_w,
        p.y + p.height <= screen_h,
        0 <= screen_w - p.width - 2 * p.x <= 1,
        0 <= screen_h - p.height - 2 * p.y <= 1,
        p.x <= u16::MAX - 2,
        p.y <= u16::MAX - 1,
{
}

/// A popup is as wide as asked for and has room for its rows, a frame, a blank line and a
/// footer, where the screen is large enough; otherwise it leaves two cells at each edge.
pub proof fn law_popup_has_room(p: Area, screen_w: u16, screen_h: u16, width: u16, rows: u16)
    requires
        is_popup(p, screen_w, screen_h, width, rows),
    ensures
        screen_w >= width + 4 ==> p.width == width,
        screen_w < width + 4 && screen_w >= 4 ==> p.width == screen_w - 4,
        screen_h >= rows + 8 ==> p.height == rows + 4,
        screen_h < rows + 8 && screen_h >= 4 ==> p.height == screen_h - 4,
{
}

/// The inside of a popup lies within its frame.
pub proof fn law_inside_lies_within(i: Area, p: Area)
    requires
        is_inside_of(i, p),
        p.width >= 4,
        p.height >= 2,
    ensures
        i.x == p.x + 2,
        i.x + i.width == p.x + p.width - 2,
        i.y == p.y + 1,
        i.y + i.height == p.y + p.height - 1,
{
}

} // verus!
