//! The display: its size, the mapping of touches to the pixels drawn under
//! them, and the screen area that one rendered line covers.
use vstd::prelude::*;

verus! {

/// Width of the display, in pixels, in landscape orientation.
pub const SCR_WIDTH: u16 = 320;

/// Height of the display, in pixels, in landscape orientation.
pub const SCR_HEIGHT: u16 = 240;

/// A point of the display, in the drawing library's coordinates.
#[derive(Debug, Clone, Copy, PartialEq, Eq, Structural)]
pub struct ScreenPoint {
    pub x: i32,
    pub y: i32,
}

/// Whether the touch controller's status register reports a touch: it
/// counts the touch points, and reads 255 when it has no valid data.
pub open spec fn touch_reported_spec(status: u8) -> bool {
    status > 0 && status != 255
}

/// Decides from the touch controller's status whether to read the coordinates of a touch.
pub fn touch_reported(status: u8) -> (r: bool)
    ensures
        r == touch_reported_spec(status),
        r <==> (status != 0 && status != 255),
{
    status > 0 && status != 255
}

/// Whether the coordinates `(y, x)` that the touch controller reports
/// (its axes are those of the portrait panel) fall on the landscape display.
pub open spec fn touch_on_screen(pos: (u16, u16)) -> bool {
    pos.0 <= SCR_HEIGHT && pos.1 <= SCR_WIDTH
}

/// The point drawn under a touch at `(y, x)`: the panel is turned a quarter
/// turn, so the horizontal axis is mirrored.
pub open spec fn touch_point_spec(pos: (u16, u16)) -> ScreenPoint {
    ScreenPoint { x: (SCR_WIDTH - pos.1) as i32, y: pos.0 as i32 }
}

/// The point to draw for a touch reported at `pos` (which is `(y, x)`), or
/// nothing when the touch falls off the display and is to be ignored.
pub fn touch_point(pos: (u16, u16)) -> (r: Option<ScreenPoint>)
    ensures
        r is Some <==> touch_on_screen(pos),
        r matches Some(p) ==> p == touch_point_spec(pos),
        r is Some <==> (pos.0 <= 240 && pos.1 <= 320),
        r matches Some(p) ==> p.x == 320 - pos.1 && p.y == pos.0,
{
    if pos.0 > SCR_HEIGHT || pos.1 > SCR_WIDTH {
        None
    } else {
        let x: u16 = SCR_WIDTH - pos.1;
        Some(ScreenPoint { x: x as i32, y: pos.0 as i32 })
    }
}

/// Law: every point drawn for a touch lies within `[0, SCR_WIDTH] x [0, SCR_HEIGHT]`,
/// and distinct touches are drawn at distinct points.
pub proof fn lemma_touch_points(a: (u16, u16), b: (u16, u16))
    requires
        touch_on_screen(a),
        touch_on_screen(b),
    ensures
        0 <= touch_point_spec(a).x <= SCR_WIDTH,
        0 <= touch_point_spec(a).y <= SCR_HEIGHT,
        touch_point_spec(a) == touch_point_spec(b) ==> a == b,
{
}

/// The rectangle that one rendered line of pixels covers on the display.
#[derive(Debug, Clone, Copy, PartialEq, Eq, Structural)]
pub struct LineArea {
    pub x: i32,
    pub y: i32,
    pub width: u32,
    pub height: u32,
}

/// The area that the pixels `start..end` of line `line` cover: one pixel
/// high, as wide as the range (empty when `end` is before `start`), at its
/// start. The coordinates are converted as the `as` casts of Rust convert them.
pub fn line_area(line: usize, start: usize, end: usize) -> (a: LineArea)
    ensures
        a.x == start as i32,
        a.y == line as i32,
        a.width == (if start <= end { (end - start) as u32 } else { 0 }),
        a.height == 1,
{
    let len: usize = if start <= end { end - start } else { 0 };
    LineArea { x: start as i32, y: line as i32, width: len as u32, height: 1 }
}

} // verus!
