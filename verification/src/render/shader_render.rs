use vstd::prelude::*;
use crate::color::Color;
use crate::image::Image;

verus! {

/// The quotient `n / d` rounded to the nearest integer, a tie going away
/// from zero. `d` is positive.
pub open spec fn round_half_away(n: int, d: int) -> int {
    if n >= 0 {
        (2 * n + d) / (2 * d)
    } else {
        -((2 * (-n) + d) / (2 * d))
    }
}

/// The second coordinate, rounded, of the point with first coordinate `a` on
/// the straight segment from `(a0, b0)` to `(a1, b1)`, where `a0 != a1`.
pub open spec fn interpolated(a0: int, b0: int, a1: int, b1: int, a: int) -> int {
    if a0 < a1 {
        round_half_away(b0 * (a1 - a) + b1 * (a - a0), a1 - a0)
    } else {
        round_half_away(b1 * (a0 - a) + b0 * (a - a1), a0 - a1)
    }
}

/// `(a, b)` is one of the points marked for the segment from `(a0, b0)` to
/// `(a1, b1)` when it is walked along the first coordinate: one point for
/// each integer `a` between the endpoints.
pub open spec fn on_span(a0: int, b0: int, a1: int, b1: int, a: int, b: int) -> bool {
    &&& a0 <= a <= a1 || a1 <= a <= a0
    &&& b == interpolated(a0, b0, a1, b1, a)
}

/// `(x, y)` is one of the points that `line` marks for the segment from
/// `(x0, y0)` to `(x1, y1)`.
///
/// A segment that is wider than it is tall is walked along `x`, any other
/// along `y`. A segment whose endpoints coincide has no direction to walk
/// along: it marks the point in column 0 of its row.
pub open spec fn on_line(x0: int, y0: int, x1: int, y1: int, x: int, y: int) -> bool {
    let dx = if x1 > x0 { x1 - x0 } else { x0 - x1 };
    let dy = if y1 > y0 { y1 - y0 } else { y0 - y1 };
    if dx > dy {
        on_span(x0, y0, x1, y1, x, y)
    } else if dy > 0 {
        on_span(y0, x0, y1, x1, y, x)
    } else {
        x == 0 && y == y0
    }
}

/// The pixels `cells` with every pixel on the segment coloured.
pub open spec fn with_line(
    cells: Map<(int, int), Color>,
    x0: int,
    y0: int,
    x1: int,
    y1: int,
    color: Color,
) -> Map<(int, int), Color> {
    Map::new(
        |p: (int, int)| cells.dom().contains(p),
        |p: (int, int)|
            if on_line(x0, y0, x1, y1, p.0, p.1) {
                color
            } else {
                cells[p]
            },
    )
}

/// The pixels `cells` with the points of a span coloured as far as the walk
/// has come: those whose first coordinate is below `upto`. With `steep` the
/// span's first coordinate is the pixel's `y`.
spec fn with_span_upto(
    cells: Map<(int, int), Color>,
    steep: bool,
    a0: int,
    b0: int,
    a1: int,
    b1: int,
    upto: int,
    color: Color,
) -> Map<(int, int), Color> {
    Map::new(
        |p: (int, int)| cells.dom().contains(p),
        |p: (int, int)|
            {
                let (a, b) = if steep { (p.1, p.0) } else { p };
                if on_span(a0, b0, a1, b1, a, b) && a < upto {
                    color
                } else {
                    cells[p]
                }
            },
    )
}

/// `interpolated` for `a0 <= a <= a1`, `a0 < a1`.
fn interpolate(a0: i32, b0: i32, a1: i32, b1: i32, a: i32) -> (b: i128)
    requires
        a0 < a1,
        a0 <= a <= a1,
    ensures
        b == interpolated(a0 as int, b0 as int, a1 as int, b1 as int, a as int),
{
    let d: i128 = a1 as i128 - a0 as i128;
    let u: i128 = a1 as i128 - a as i128;
    let v: i128 = a as i128 - a0 as i128;
    assert(-0x8000_0000 * 0x1_0000_0000 <= (b0 as int) * (u as int) <= 0x8000_0000 * 0x1_0000_0000)
        by (nonlinear_arith)
        requires
            -0x8000_0000 <= b0 as int <= 0x8000_0000,
            0 <= u as int <= 0x1_0000_0000,
    ;
    assert(-0x8000_0000 * 0x1_0000_0000 <= (b1 as int) * (v as int) <= 0x8000_0000 * 0x1_0000_0000)
        by (nonlinear_arith)
        requires
            -0x8000_0000 <= b1 as int <= 0x8000_0000,
            0 <= v as int <= 0x1_0000_0000,
    ;
    let n: i128 = (b0 as i128) * u + (b1 as i128) * v;
    if n >= 0 {
        (2 * n + d) / (2 * d)
    } else {
        -((2 * (-n) + d) / (2 * d))
    }
}

/// Colours the points of the span from `(a0, b0)` to `(a1, b1)`, where
/// `a0 < a1`. With `steep` the span's first coordinate is the pixel's `y`.
fn draw_span(img: &mut Image, steep: bool, a0: i32, b0: i32, a1: i32, b1: i32, color: Color)
    requires
        old(img).wf(),
        a0 < a1,
    ensures
        final(img).wf(),
        final(img).spec_width() == old(img).spec_width(),
        final(img).spec_height() == old(img).spec_height(),
        final(img)@ == with_span_upto(
            old(img)@,
            steep,
            a0 as int,
            b0 as int,
            a1 as int,
            b1 as int,
            a1 + 1,
            color,
        ),
{
    let width: i32 = img.width();
    let height: i32 = img.height();
    let (along, across): (i32, i32) = if steep { (height, width) } else { (width, height) };
    // Only the part of the walk that crosses the image can leave a mark.
    let first: i32 = if a0 < 0 { 0 } else { a0 };
    let last: i32 = if a1 < along { a1 } else { along - 1 };
    proof {
        img.lemma_view();
        assert(img@ =~= with_span_upto(
            img@,
            steep,
            a0 as int,
            b0 as int,
            a1 as int,
            b1 as int,
            first as int,
            color,
        ));
    }
    let mut a: i32 = first;
    while a <= last
        invariant
            img.wf(),
            img.spec_width() == old(img).spec_width() == width,
            img.spec_height() == old(img).spec_height() == height,
            old(img).wf(),
            along == (if steep { height } else { width }),
            across == (if steep { width } else { height }),
            a0 < a1,
            first == (if a0 < 0 { 0 } else { a0 as int }),
            last == (if a1 < along { a1 as int } else { along - 1 }),
            first <= a,
            a <= last + 1 || last < first,
            img@ == with_span_upto(
                old(img)@,
                steep,
                a0 as int,
                b0 as int,
                a1 as int,
                b1 as int,
                a as int,
                color,
            ),
        decreases last + 1 - a,
    {
        let b: i128 = interpolate(a0, b0, a1, b1, a);
        if 0 <= b && b < across as i128 {
            if steep {
                img.set_pixel(b as i32, a, color);
            } else {
                img.set_pixel(a, b as i32, color);
            }
        }
        proof {
            old(img).lemma_view();
            img.lemma_view();
            let next = with_span_upto(
                old(img)@,
                steep,
                a0 as int,
                b0 as int,
                a1 as int,
                b1 as int,
                a + 1,
                color,
            );
            assert forall|p: (int, int)| next.dom().contains(p) implies #[trigger] img@[p]
                == next[p] by {}
            assert(img@ =~= next);
        }
        a = a + 1;
    }
    proof {
        old(img).lemma_view();
        img.lemma_view();
        assert(img@ =~= with_span_upto(
            old(img)@,
            steep,
            a0 as int,
            b0 as int,
            a1 as int,
            b1 as int,
            a1 + 1,
            color,
        ));
    }
}

/// Draws the straight segment from `(x0, y0)` to `(x1, y1)` in `color`.
///
/// The image keeps its size; every pixel of it that `on_line` names takes
/// `color`, and no other pixel changes.
pub fn line(x0: i32, y0: i32, x1: i32, y1: i32, img: &mut Image, color: Color)
    requires
        old(img).wf(),
    ensures
        final(img).wf(),
        final(img).spec_width() == old(img).spec_width(),
        final(img).spec_height() == old(img).spec_height(),
        final(img)@ == with_line(old(img)@, x0 as int, y0 as int, x1 as int, y1 as int, color),
{
    let dx: i64 = if x1 > x0 { x1 as i64 - x0 as i64 } else { x0 as i64 - x1 as i64 };
    let dy: i64 = if y1 > y0 { y1 as i64 - y0 as i64 } else { y0 as i64 - y1 as i64 };
    proof {
        old(img).lemma_view();
    }
    if dx > dy {
        if x1 < x0 {
            draw_span(img, false, x1, y1, x0, y0, color);
        } else {
            draw_span(img, false, x0, y0, x1, y1, color);
        }
    } else if dy > 0 {
        if y1 < y0 {
            draw_span(img, true, y1, x1, y0, x0, color);
        } else {
            draw_span(img, true, y0, x0, y1, x1, color);
        }
    } else {
        img.set_pixel(0, y0, color);
    }
    proof {
        img.lemma_view();
        assert(img@ =~= with_line(old(img)@, x0 as int, y0 as int, x1 as int, y1 as int, color));
    }
}

/// A segment is the same line from either end: swapping the endpoints marks
/// the same points.
pub proof fn lemma_line_symmetric(x0: int, y0: int, x1: int, y1: int, x: int, y: int)
    ensures
        on_line(x0, y0, x1, y1, x, y) == on_line(x1, y1, x0, y0, x, y),
{
}

/// Every point that is marked lies between the endpoints along the axis
/// that the segment is walked on, and there is exactly one for each step:
/// two marked points with the same coordinate on that axis are one point.
pub proof fn lemma_one_point_per_step(
    x0: int,
    y0: int,
    x1: int,
    y1: int,
    x: int,
    y: int,
    other_x: int,
    other_y: int,
)
    requires
        on_line(x0, y0, x1, y1, x, y),
        on_line(x0, y0, x1, y1, other_x, other_y),
    ensures
        ({
            let dx = if x1 > x0 { x1 - x0 } else { x0 - x1 };
            let dy = if y1 > y0 { y1 - y0 } else { y0 - y1 };
            if dx > dy {
                x == other_x ==> y == other_y
            } else {
                y == other_y ==> x == other_x
            }
        }),
{
}

} // verus!
