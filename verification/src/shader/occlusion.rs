use vstd::prelude::*;
use crate::color::Color;
use crate::grid::{plot, sample};
use crate::image::Image;

verus! {

/// How far, in pixels, the occlusion pass looks from a pixel in each
/// direction.
pub const REACH: i32 = 5;

/// The strongest occlusion that a mark can record.
pub const STRONGEST: u8 = 254;

/// A rectangle of pixels, both ends of both ranges included. It is empty if
/// a range ends before it begins.
#[derive(Clone, Copy, Debug, PartialEq, Eq, Structural)]
pub struct Window {
    pub x_first: i32,
    pub x_last: i32,
    pub y_first: i32,
    pub y_last: i32,
}

impl Window {
    /// `(x, y)` lies in the window.
    pub open spec fn contains(self, x: int, y: int) -> bool {
        self.x_first <= x <= self.x_last && self.y_first <= y <= self.y_last
    }
}

/// `(x, y)` is a pixel of a `width` x `height` frame that is no farther than
/// `REACH` from `(cx, cy)` in either coordinate.
pub open spec fn near(width: int, height: int, cx: int, cy: int, x: int, y: int) -> bool {
    &&& 0 <= x < width
    &&& 0 <= y < height
    &&& cx - REACH <= x <= cx + REACH
    &&& cy - REACH <= y <= cy + REACH
}

/// The pixels of `frame` that the occlusion pass samples for the pixel
/// `(x, y)`: the square of `2 * REACH + 1` pixels a side around it, cut off
/// at the edges of the frame.
pub fn neighbourhood(frame: &Image, x: i32, y: i32) -> (w: Window)
    requires
        frame.wf(),
    ensures
        forall|px: int, py: int|
            w.contains(px, py) <==> near(
                frame.spec_width(),
                frame.spec_height(),
                x as int,
                y as int,
                px,
                py,
            ),
{
    let width: i64 = frame.width() as i64;
    let height: i64 = frame.height() as i64;
    let reach: i64 = REACH as i64;
    let x_low: i64 = x as i64 - reach;
    let x_high: i64 = x as i64 + reach;
    let y_low: i64 = y as i64 - reach;
    let y_high: i64 = y as i64 + reach;
    Window {
        x_first: (if x_low < 0 { 0 } else { x_low }) as i32,
        x_last: (if x_high < width { x_high } else { width - 1 }) as i32,
        y_first: (if y_low < 0 { 0 } else { y_low }) as i32,
        y_last: (if y_high < height { y_high } else { height - 1 }) as i32,
    }
}

/// The occlusion pass has not been at `(x, y)`: the red channel of its mark
/// is still zero there.
pub open spec fn unvisited(marks: Map<(int, int), Color>, x: int, y: int) -> bool {
    sample(marks, x, y, Image::outside()).0 == 0
}

/// The grey that marks a pixel as visited and records how strongly it is
/// occluded: never black.
pub open spec fn mark_for(strength: u8) -> Color {
    Color((strength + 1) as u8, (strength + 1) as u8, (strength + 1) as u8)
}

/// Visits `(x, y)` for the occlusion pass: on the first visit the mark for
/// `strength` is left there, on a later one nothing changes. Says whether
/// the visit was the first.
pub fn mark_visit(marks: &mut Image, x: i32, y: i32, strength: u8) -> (first: bool)
    requires
        old(marks).wf(),
        strength <= STRONGEST,
    ensures
        final(marks).wf(),
        final(marks).spec_width() == old(marks).spec_width(),
        final(marks).spec_height() == old(marks).spec_height(),
        first == unvisited(old(marks)@, x as int, y as int),
        final(marks)@ == (if first {
            plot(old(marks)@, x as int, y as int, mark_for(strength))
        } else {
            old(marks)@
        }),
{
    let first = marks.pixel_at(x, y).0 == 0;
    if first {
        let level: u8 = strength + 1;
        marks.set_pixel(x, y, Color(level, level, level));
    }
    first
}

/// A pixel of the frame is visited once: after a first visit has left its
/// mark, no visit to that pixel is a first one, whatever marks are left on
/// other pixels in between.
pub proof fn lemma_visited_once(
    marks: Map<(int, int), Color>,
    x: int,
    y: int,
    strength: u8,
    other_x: int,
    other_y: int,
    other_strength: u8,
)
    requires
        marks.dom().contains((x, y)),
        strength <= STRONGEST,
        other_strength <= STRONGEST,
    ensures
        !unvisited(plot(marks, x, y, mark_for(strength)), x, y),
        !unvisited(marks, x, y) ==> !unvisited(
            plot(marks, other_x, other_y, mark_for(other_strength)),
            x,
            y,
        ),
{
}

} // verus!
