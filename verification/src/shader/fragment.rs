use vstd::prelude::*;
use crate::color::Color;
use crate::grid::{plot, sample};
use crate::image::Image;
use crate::zbuffer::ZBuffer;

verus! {

/// Whether a fragment for pixel `(x, y)` at depth `z` passes the depth test:
/// the pixel lies in the frame and `z` is strictly nearer than the depth
/// recorded for it.
pub open spec fn fragment_visible(
    colors: Map<(int, int), Color>,
    depths: Map<(int, int), u32>,
    x: int,
    y: int,
    z: u32,
) -> bool {
    colors.dom().contains((x, y)) && z < sample(depths, x, y, ZBuffer::outside())
}

/// The frame after a fragment was offered to it: a visible fragment leaves
/// its colour and its depth at its pixel, any other leaves no trace.
pub open spec fn frame_after(
    colors: Map<(int, int), Color>,
    depths: Map<(int, int), u32>,
    x: int,
    y: int,
    z: u32,
    color: Color,
) -> (Map<(int, int), Color>, Map<(int, int), u32>) {
    if fragment_visible(colors, depths, x, y, z) {
        (plot(colors, x, y, color), plot(depths, x, y, z))
    } else {
        (colors, depths)
    }
}

/// The depth test of a fragment against the frame it is meant for.
pub fn depth_test(out: &Image, z_buffer: &ZBuffer, x: i32, y: i32, z: u32) -> (visible: bool)
    requires
        out.wf(),
        z_buffer.wf(),
    ensures
        visible == fragment_visible(out@, z_buffer@, x as int, y as int, z),
{
    proof {
        out.lemma_view();
    }
    z < z_buffer.pixel_at(x, y) && 0 <= x && x < out.width() && 0 <= y && y < out.height()
}

/// Offers a fragment to the frame: if it passes the depth test its colour
/// and depth are written, otherwise nothing changes. Says whether it passed.
pub fn draw_fragment(
    out: &mut Image,
    z_buffer: &mut ZBuffer,
    x: i32,
    y: i32,
    z: u32,
    color: Color,
) -> (visible: bool)
    requires
        old(out).wf(),
        old(z_buffer).wf(),
    ensures
        final(out).wf(),
        final(z_buffer).wf(),
        final(out).spec_width() == old(out).spec_width(),
        final(out).spec_height() == old(out).spec_height(),
        final(z_buffer).spec_width() == old(z_buffer).spec_width(),
        final(z_buffer).spec_height() == old(z_buffer).spec_height(),
        visible == fragment_visible(old(out)@, old(z_buffer)@, x as int, y as int, z),
        (final(out)@, final(z_buffer)@) == frame_after(
            old(out)@,
            old(z_buffer)@,
            x as int,
            y as int,
            z,
            color,
        ),
{
    let visible = depth_test(out, z_buffer, x, y, z);
    if visible {
        out.set_pixel(x, y, color);
        z_buffer.set_pixel(x, y, z);
    }
    visible
}

/// The depth test makes the nearer of two fragments win whatever the order
/// of drawing: where two fragments fall on one pixel of the frame at depths
/// `z1 < z2`, and the first is nearer than what the frame held, the frame
/// ends up the same in both orders, with the nearer fragment's colour and
/// depth at that pixel.
pub proof fn lemma_nearer_fragment_wins(
    colors: Map<(int, int), Color>,
    depths: Map<(int, int), u32>,
    x: int,
    y: int,
    z1: u32,
    c1: Color,
    z2: u32,
    c2: Color,
)
    requires
        colors.dom().contains((x, y)),
        depths.dom().contains((x, y)),
        z1 < z2,
        z1 < depths[(x, y)],
    ensures
        ({
            let near = frame_after(colors, depths, x, y, z1, c1);
            let far = frame_after(colors, depths, x, y, z2, c2);
            let near_then_far = frame_after(near.0, near.1, x, y, z2, c2);
            let far_then_near = frame_after(far.0, far.1, x, y, z1, c1);
            &&& near_then_far == far_then_near
            &&& near_then_far.0 == colors.insert((x, y), c1)
            &&& near_then_far.1 == depths.insert((x, y), z1)
        }),
{
    let near = frame_after(colors, depths, x, y, z1, c1);
    let far = frame_after(colors, depths, x, y, z2, c2);
    let near_then_far = frame_after(near.0, near.1, x, y, z2, c2);
    let far_then_near = frame_after(far.0, far.1, x, y, z1, c1);
    assert(near_then_far.0 =~= colors.insert((x, y), c1));
    assert(near_then_far.1 =~= depths.insert((x, y), z1));
    assert(far_then_near.0 =~= colors.insert((x, y), c1));
    assert(far_then_near.1 =~= depths.insert((x, y), z1));
}

/// Fragments on different pixels do not disturb each other: drawing them in
/// either order leaves the same frame.
pub proof fn lemma_fragments_on_distinct_pixels_commute(
    colors: Map<(int, int), Color>,
    depths: Map<(int, int), u32>,
    x1: int,
    y1: int,
    z1: u32,
    c1: Color,
    x2: int,
    y2: int,
    z2: u32,
    c2: Color,
)
    requires
        (x1, y1) != (x2, y2),
    ensures
        ({
            let a = frame_after(colors, depths, x1, y1, z1, c1);
            let b = frame_after(colors, depths, x2, y2, z2, c2);
            frame_after(a.0, a.1, x2, y2, z2, c2) == frame_after(b.0, b.1, x1, y1, z1, c1)
        }),
{
    let a = frame_after(colors, depths, x1, y1, z1, c1);
    let b = frame_after(colors, depths, x2, y2, z2, c2);
    let ab = frame_after(a.0, a.1, x2, y2, z2, c2);
    let ba = frame_after(b.0, b.1, x1, y1, z1, c1);
    assert(ab.0 =~= ba.0);
    assert(ab.1 =~= ba.1);
}

} // verus!
