use vstd::prelude::*;
use crate::grid::{plot, rect, sample, Raster};

verus! {

/// A depth buffer: one depth for each pixel of a frame.
///
/// A depth is an unsigned key, and a smaller key is nearer to the viewer.
/// Pixels are addressed as in an `Image`.
pub struct ZBuffer {
    grid: Raster<u32>,
}

impl View for ZBuffer {
    type V = Map<(int, int), u32>;

    /// The depth of every pixel of the buffer, by coordinate.
    closed spec fn view(&self) -> Map<(int, int), u32> {
        self.grid.view()
    }
}

impl ZBuffer {
    /// The representation is consistent: the dimensions are not negative and
    /// there is one stored depth for each coordinate.
    pub closed spec fn wf(&self) -> bool {
        self.grid.wf()
    }

    /// The number of columns.
    pub closed spec fn spec_width(&self) -> int {
        self.grid.spec_width()
    }

    /// The number of rows.
    pub closed spec fn spec_height(&self) -> int {
        self.grid.spec_height()
    }

    /// The depth read outside the buffer.
    pub open spec fn outside() -> u32 {
        0
    }

    /// The buffer holds a depth for exactly the coordinates of its rectangle.
    pub proof fn lemma_view(&self)
        requires
            self.wf(),
        ensures
            0 <= self.spec_width(),
            0 <= self.spec_height(),
            self@.dom() == rect(self.spec_width(), self.spec_height()),
    {
        self.grid.lemma_cells_len();
        assert(self@.dom() =~= rect(self.spec_width(), self.spec_height()));
    }

    /// A buffer of the given size with depth 0 everywhere.
    pub fn new(width: i32, height: i32) -> (buffer: ZBuffer)
        requires
            0 <= width,
            0 <= height,
            width * height <= usize::MAX,
        ensures
            buffer.wf(),
            buffer.spec_width() == width,
            buffer.spec_height() == height,
            buffer@ == Map::new(
                |p: (int, int)| rect(width as int, height as int).contains(p),
                |p: (int, int)| 0u32,
            ),
    {
        let grid = Raster::filled(width, height, 0u32);
        let buffer = ZBuffer { grid };
        proof {
            let expected = Map::new(
                |p: (int, int)| rect(width as int, height as int).contains(p),
                |p: (int, int)| 0u32,
            );
            assert forall|p: (int, int)| buffer@.dom().contains(p) implies #[trigger] buffer@[p]
                == expected[p] by {
                crate::grid::lemma_offset_in_range(width as int, height as int, p.0, p.1);
            }
            assert(buffer@ =~= expected);
        }
        buffer
    }

    /// The number of columns of the buffer.
    pub fn width(&self) -> (w: i32)
        requires
            self.wf(),
        ensures
            w == self.spec_width(),
            0 <= w,
    {
        self.grid.width()
    }

    /// The number of rows of the buffer.
    pub fn height(&self) -> (h: i32)
        requires
            self.wf(),
        ensures
            h == self.spec_height(),
            0 <= h,
    {
        self.grid.height()
    }

    /// The depth at `(x, y)`; 0 for a coordinate outside the buffer.
    pub fn pixel_at(&self, x: i32, y: i32) -> (z: u32)
        requires
            self.wf(),
        ensures
            z == sample(self@, x as int, y as int, ZBuffer::outside()),
    {
        self.grid.get(x, y, 0)
    }

    /// Records depth `z` at `(x, y)`; a coordinate outside the buffer is
    /// ignored.
    pub fn set_pixel(&mut self, x: i32, y: i32, z: u32)
        requires
            old(self).wf(),
        ensures
            final(self).wf(),
            final(self).spec_width() == old(self).spec_width(),
            final(self).spec_height() == old(self).spec_height(),
            final(self)@ == plot(old(self)@, x as int, y as int, z),
    {
        self.grid.set(x, y, z);
    }
}

} // verus!
