use vstd::prelude::*;
use crate::color::Color;
use crate::grid::{plot, raster, rect, sample, Raster};

verus! {

/// A dense grid of RGB pixels.
///
/// A pixel is addressed by `(x, y)` with `x` running to the right and `y`
/// running upwards; the pixels are stored row by row with the top row first,
/// which is the order in which they are exported.
pub struct Image {
    grid: Raster<Color>,
}

impl View for Image {
    type V = Map<(int, int), Color>;

    /// The colour of every pixel of the image, by coordinate.
    closed spec fn view(&self) -> Map<(int, int), Color> {
        self.grid.view()
    }
}

impl Image {
    /// The representation is consistent: the dimensions are not negative and
    /// there is one stored pixel for each coordinate.
    pub closed spec fn wf(&self) -> bool {
        self.grid.wf()
    }

    /// The number of columns.
    pub closed spec fn spec_width(&self) -> int {
        self.grid.spec_width()
    }

    /// The number of rows.
    pub closed spec fn spec_height(&self) -> int {
        self.grid.spec_height()
    }

    /// The pixels in storage order: top row first, each row left to right.
    pub closed spec fn pixels(&self) -> Seq<Color> {
        self.grid.cells()
    }

    /// The colour read outside the image.
    pub open spec fn outside() -> Color {
        Color(0, 0, 0)
    }

    /// The view is the stored pixels laid out over the image's rectangle.
    pub proof fn lemma_view(&self)
        requires
            self.wf(),
        ensures
            0 <= self.spec_width(),
            0 <= self.spec_height(),
            self.pixels().len() == self.spec_width() * self.spec_height(),
            self@ == raster(self.spec_width(), self.spec_height(), self.pixels()),
            self@.dom() == rect(self.spec_width(), self.spec_height()),
    {
        self.grid.lemma_cells_len();
        assert(self@.dom() =~= rect(self.spec_width(), self.spec_height()));
    }

    /// A black image of the given size.
    pub fn new(width: i32, height: i32) -> (img: Image)
        requires
            0 <= width,
            0 <= height,
            width * height <= usize::MAX,
        ensures
            img.wf(),
            img.spec_width() == width,
            img.spec_height() == height,
            img@ == Map::new(
                |p: (int, int)| rect(width as int, height as int).contains(p),
                |p: (int, int)| Color(0, 0, 0),
            ),
    {
        let grid = Raster::filled(width, height, Color(0, 0, 0));
        let img = Image { grid };
        proof {
            let expected = Map::new(
                |p: (int, int)| rect(width as int, height as int).contains(p),
                |p: (int, int)| Color(0, 0, 0),
            );
            assert forall|p: (int, int)| img@.dom().contains(p) implies #[trigger] img@[p]
                == expected[p] by {
                crate::grid::lemma_offset_in_range(width as int, height as int, p.0, p.1);
            }
            assert(img@ =~= expected);
        }
        img
    }

    /// The image whose pixels are `data` in storage order: top row first,
    /// each row left to right. There is no such image unless the dimensions
    /// are not negative and `data` holds one pixel for each coordinate.
    pub fn from_pixels(width: i32, height: i32, data: Vec<Color>) -> (r: Option<Image>)
        ensures
            r is Some <==> 0 <= width && 0 <= height && data@.len() == width * height,
            r is Some ==> {
                &&& r->0.wf()
                &&& r->0.spec_width() == width
                &&& r->0.spec_height() == height
                &&& r->0.pixels() == data@
                &&& r->0@ == raster(width as int, height as int, data@)
            },
    {
        match Raster::from_cells(width, height, data) {
            Some(grid) => Some(Image { grid }),
            None => None,
        }
    }

    /// The number of columns of the image.
    pub fn width(&self) -> (w: i32)
        requires
            self.wf(),
        ensures
            w == self.spec_width(),
            0 <= w,
    {
        self.grid.width()
    }

    /// The number of rows of the image.
    pub fn height(&self) -> (h: i32)
        requires
            self.wf(),
        ensures
            h == self.spec_height(),
            0 <= h,
    {
        self.grid.height()
    }

    /// The colour at `(x, y)`; black for a coordinate outside the image.
    pub fn pixel_at(&self, x: i32, y: i32) -> (c: Color)
        requires
            self.wf(),
        ensures
            c == sample(self@, x as int, y as int, Image::outside()),
    {
        self.grid.get(x, y, Color(0, 0, 0))
    }

    /// Colours the pixel at `(x, y)`; a coordinate outside the image is
    /// ignored.
    pub fn set_pixel(&mut self, x: i32, y: i32, color: Color)
        requires
            old(self).wf(),
        ensures
            final(self).wf(),
            final(self).spec_width() == old(self).spec_width(),
            final(self).spec_height() == old(self).spec_height(),
            final(self)@ == plot(old(self)@, x as int, y as int, color),
    {
        self.grid.set(x, y, color);
    }

    /// The colour that `table` sends `color` to, channel by channel.
    pub open spec fn remapped(color: Color, table: Seq<u8>) -> Color {
        Color(table[color.0 as int], table[color.1 as int], table[color.2 as int])
    }

    /// Replaces every channel value `v` of every pixel by `table[v]`.
    ///
    /// A tone curve such as a gamma correction acts on an image in this way.
    pub fn map_channels(&mut self, table: &[u8; 256])
        requires
            old(self).wf(),
        ensures
            final(self).wf(),
            final(self).spec_width() == old(self).spec_width(),
            final(self).spec_height() == old(self).spec_height(),
            final(self).pixels() == old(self).pixels().map_values(
                |c: Color| Image::remapped(c, table@),
            ),
            final(self)@ == old(self)@.map_values(|c: Color| Image::remapped(c, table@)),
    {
        let n: usize = self.grid.len();
        let mut i: usize = 0;
        while i < n
            invariant
                self.wf(),
                old(self).wf(),
                self.spec_width() == old(self).spec_width(),
                self.spec_height() == old(self).spec_height(),
                n == old(self).pixels().len(),
                self.pixels().len() == n,
                i <= n,
                forall|j: int|
                    0 <= j < i ==> self.pixels()[j] == Image::remapped(
                        old(self).pixels()[j],
                        table@,
                    ),
                forall|j: int| i <= j < n ==> self.pixels()[j] == old(self).pixels()[j],
            decreases n - i,
        {
            let c: Color = self.grid.cell(i);
            let mapped = Color(table[c.0 as usize], table[c.1 as usize], table[c.2 as usize]);
            self.grid.set_cell(i, mapped);
            i += 1;
        }
        proof {
            let f = |c: Color| Image::remapped(c, table@);
            assert(self.pixels() =~= old(self).pixels().map_values(f));
            old(self).lemma_view();
            self.lemma_view();
            assert forall|p: (int, int)| self@.dom().contains(p) implies #[trigger] self@[p]
                == old(self)@.map_values(f)[p] by {
                crate::grid::lemma_offset_in_range(
                    self.spec_width(),
                    self.spec_height(),
                    p.0,
                    p.1,
                );
            }
            assert(self@ =~= old(self)@.map_values(f));
        }
    }

    /// A table that sends every channel value to itself leaves every colour
    /// as it is, so that `map_channels` with it changes nothing.
    pub proof fn lemma_identity_table(pixels: Map<(int, int), Color>, table: Seq<u8>)
        requires
            table.len() == 256,
            forall|v: int| 0 <= v < 256 ==> table[v] == v,
        ensures
            forall|c: Color| Image::remapped(c, table) == c,
            pixels.map_values(|c: Color| Image::remapped(c, table)) == pixels,
    {
        assert forall|c: Color| Image::remapped(c, table) == c by {
            assert(table[c.0 as int] == c.0);
            assert(table[c.1 as int] == c.1);
            assert(table[c.2 as int] == c.2);
        }
        assert(pixels.map_values(|c: Color| Image::remapped(c, table)) =~= pixels);
    }

    /// The bytes of `get_raw_bytes` for one pixel: red, green, blue and a
    /// full alpha.
    pub open spec fn rgba(color: Color) -> Seq<u8> {
        seq![color.0, color.1, color.2, 255u8]
    }

    /// The image as a stream of bytes: four bytes for each pixel, in storage
    /// order.
    pub fn get_raw_bytes(&self) -> (bytes: Vec<u8>)
        requires
            self.wf(),
        ensures
            bytes@.len() == 4 * self.pixels().len(),
            forall|j: int|
                0 <= j < bytes@.len() ==> #[trigger] bytes@[j] == Image::rgba(
                    self.pixels()[j / 4],
                )[j % 4],
    {
        let n: usize = self.grid.len();
        let mut bytes: Vec<u8> = Vec::new();
        let mut i: usize = 0;
        while i < n
            invariant
                n == self.pixels().len(),
                i <= n,
                bytes@.len() == 4 * i,
                forall|j: int|
                    0 <= j < bytes@.len() ==> #[trigger] bytes@[j] == Image::rgba(
                        self.pixels()[j / 4],
                    )[j % 4],
            decreases n - i,
        {
            let c: Color = self.grid.cell(i);
            bytes.push(c.0);
            bytes.push(c.1);
            bytes.push(c.2);
            bytes.push(255);
            i += 1;
        }
        bytes
    }
}

} // verus!
