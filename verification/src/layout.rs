//! Where the tray menu and the toast go on the screen, in physical pixels.
use vstd::prelude::*;

verus! {

pub const MENU_WIDTH: i32 = 200;

pub const MENU_HEIGHT: i32 = 220;

/// The gap between the menu and the point clicked.
pub const MENU_MARGIN: i32 = 8;

pub const TOAST_WIDTH: i32 = 320;

pub const TOAST_HEIGHT: i32 = 48;

/// The gap between the toast and the corner of the work area.
pub const TOAST_MARGIN: i32 = 18;

/// `v` raised to at least `lo`, then lowered to at most `hi` (so `hi` wins
/// where `hi < lo`).
pub open spec fn clamp_to(v: int, lo: int, hi: int) -> int {
    let raised = if v < lo {
        lo
    } else {
        v
    };
    if raised > hi {
        hi
    } else {
        raised
    }
}

/// The top-left corner of the tray menu for a click at (`click_x`, `click_y`)
/// on a work area at (`area_x`, `area_y`) of `area_width` by `area_height`:
/// centred above the click, then kept inside the work area.
pub open spec fn menu_corner(
    click_x: int,
    click_y: int,
    area_x: int,
    area_y: int,
    area_width: int,
    area_height: int,
) -> (int, int) {
    (
        clamp_to(click_x - MENU_WIDTH / 2, area_x, area_x + area_width - MENU_WIDTH),
        clamp_to(click_y - MENU_HEIGHT - MENU_MARGIN, area_y, area_y + area_height - MENU_HEIGHT),
    )
}

pub fn menu_position(
    click_x: i32,
    click_y: i32,
    area_x: i32,
    area_y: i32,
    area_width: i32,
    area_height: i32,
) -> (r: (i32, i32))
    requires
        i32::MIN <= click_x - MENU_WIDTH / 2,
        i32::MIN <= click_y - MENU_HEIGHT - MENU_MARGIN,
        area_x + area_width <= i32::MAX,
        i32::MIN <= area_x + area_width - MENU_WIDTH,
        area_y + area_height <= i32::MAX,
        i32::MIN <= area_y + area_height - MENU_HEIGHT,
    ensures
        (r.0 as int, r.1 as int) == menu_corner(
            click_x as int,
            click_y as int,
            area_x as int,
            area_y as int,
            area_width as int,
            area_height as int,
        ),
{
    let work_right = area_x + area_width;
    let work_bottom = area_y + area_height;
    let mut x = click_x - MENU_WIDTH / 2;
    let mut y = click_y - MENU_HEIGHT - MENU_MARGIN;
    if x < area_x {
        x = area_x;
    }
    if x > work_right - MENU_WIDTH {
        x = work_right - MENU_WIDTH;
    }
    if y < area_y {
        y = area_y;
    }
    if y > work_bottom - MENU_HEIGHT {
        y = work_bottom - MENU_HEIGHT;
    }
    (x, y)
}

/// The top-left corner of the toast: in the bottom-right corner of the work
/// area, `TOAST_MARGIN` in from both edges.
pub fn toast_position(area_x: i32, area_y: i32, area_width: i32, area_height: i32) -> (r: (i32, i32))
    requires
        area_x + area_width <= i32::MAX,
        i32::MIN <= area_x + area_width - TOAST_WIDTH - TOAST_MARGIN,
        area_y + area_height <= i32::MAX,
        i32::MIN <= area_y + area_height - TOAST_HEIGHT - TOAST_MARGIN,
    ensures
        r.0 == area_x + area_width - TOAST_WIDTH - TOAST_MARGIN,
        r.1 == area_y + area_height - TOAST_HEIGHT - TOAST_MARGIN,
{
    (
        area_x + area_width - TOAST_WIDTH - TOAST_MARGIN,
        area_y + area_height - TOAST_HEIGHT - TOAST_MARGIN,
    )
}

} // verus!
