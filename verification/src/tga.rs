use vstd::prelude::*;
use crate::color::Color;
use crate::grid::{lemma_offset_in_range, offset, rect};
use crate::image::Image;

verus! {

/// Length of the fixed header of a TGA file.
pub const HEADER_LEN: usize = 18;

/// The width that a TGA header states.
pub open spec fn tga_width(bytes: Seq<u8>) -> int {
    bytes[12] as int + 256 * (bytes[13] as int)
}

/// The height that a TGA header states.
pub open spec fn tga_height(bytes: Seq<u8>) -> int {
    bytes[14] as int + 256 * (bytes[15] as int)
}

/// Whether the rows of a TGA file run from the top of the image downwards.
pub open spec fn tga_top_first(bytes: Seq<u8>) -> bool {
    bytes[17] == 0x20
}

/// Where the pixel data of a TGA file begins: behind the header and the
/// identification field, whose length is the header's first byte.
pub open spec fn tga_data_start(bytes: Seq<u8>) -> int {
    HEADER_LEN as int + bytes[0] as int
}

/// `bytes` is an uncompressed true-colour TGA file of 24 bits per pixel
/// without a colour map, with its rows stored from the bottom up or from
/// the top down, and it holds all the pixels that its header announces.
pub open spec fn tga_valid(bytes: Seq<u8>) -> bool {
    &&& bytes.len() >= HEADER_LEN
    &&& bytes[1] == 0
    &&& bytes[2] == 2
    &&& bytes[16] == 24
    &&& (bytes[17] == 0 || bytes[17] == 0x20)
    &&& bytes.len() >= tga_data_start(bytes) + 3 * (tga_width(bytes) * tga_height(bytes))
}

/// Where the three bytes of pixel `(x, y)` begin in a TGA file, `y` counted
/// upwards from the bottom of the image.
pub open spec fn tga_pixel_start(bytes: Seq<u8>, x: int, y: int) -> int {
    let row = if tga_top_first(bytes) {
        tga_height(bytes) - 1 - y
    } else {
        y
    };
    tga_data_start(bytes) + 3 * (row * tga_width(bytes) + x)
}

/// The colour of pixel `(x, y)` of a TGA file, which stores blue first.
pub open spec fn tga_pixel(bytes: Seq<u8>, x: int, y: int) -> Color {
    let at = tga_pixel_start(bytes, x, y);
    Color(bytes[at + 2], bytes[at + 1], bytes[at])
}

/// The pixels of a valid TGA file, by coordinate.
pub open spec fn tga_image(bytes: Seq<u8>) -> Map<(int, int), Color> {
    Map::new(
        |p: (int, int)| rect(tga_width(bytes), tga_height(bytes)).contains(p),
        |p: (int, int)| tga_pixel(bytes, p.0, p.1),
    )
}

impl Image {
    /// Decodes a TGA file.
    ///
    /// There is an image exactly for the files that `tga_valid` describes;
    /// it has the size that the header states and the pixels of the file.
    pub fn from_raw_vec(data: Vec<u8>) -> (r: Option<Image>)
        ensures
            r is Some <==> tga_valid(data@),
            r is Some ==> {
                &&& r->0.wf()
                &&& r->0.spec_width() == tga_width(data@)
                &&& r->0.spec_height() == tga_height(data@)
                &&& r->0@ == tga_image(data@)
            },
    {
        if data.len() < HEADER_LEN {
            return None;
        }
        if data[1] != 0 || data[2] != 2 || data[16] != 24 {
            return None;
        }
        let top_first: bool = data[17] == 0x20;
        if data[17] != 0 && !top_first {
            return None;
        }
        let width: usize = data[12] as usize + 256 * (data[13] as usize);
        let height: usize = data[14] as usize + 256 * (data[15] as usize);
        let start: usize = HEADER_LEN + data[0] as usize;
        assert(width * height <= 0xffff * 0xffff) by (nonlinear_arith)
            requires
                0 <= width <= 0xffff,
                0 <= height <= 0xffff,
        ;
        let needed: u64 = start as u64 + 3 * ((width as u64) * (height as u64));
        if (data.len() as u64) < needed {
            return None;
        }
        let len: usize = data.len();
        let mut pixels: Vec<Color> = Vec::new();
        let mut s: usize = 0;
        while s < height
            invariant
                len == data@.len(),
                tga_valid(data@),
                width == tga_width(data@),
                height == tga_height(data@),
                start == tga_data_start(data@),
                top_first == tga_top_first(data@),
                s <= height,
                pixels@.len() == s * width,
                forall|x: int, y: int|
                    0 <= x < width && height - s <= y < height ==> #[trigger] pixels@[offset(
                        width as int,
                        height as int,
                        x,
                        y,
                    )] == tga_pixel(data@, x, y),
            decreases height - s,
        {
            let y: usize = height - 1 - s;
            let row: usize = if top_first { s } else { y };
            let ghost done = pixels@;
            let mut x: usize = 0;
            while x < width
                invariant
                    len == data@.len(),
                    tga_valid(data@),
                    width == tga_width(data@),
                    height == tga_height(data@),
                    start == tga_data_start(data@),
                    top_first == tga_top_first(data@),
                    s < height,
                    y == height - 1 - s,
                    row == (if top_first { s } else { y }),
                    x <= width,
                    done.len() == s * width,
                    pixels@.len() == s * width + x,
                    forall|i: int| 0 <= i < done.len() ==> pixels@[i] == done[i],
                    forall|i: int|
                        0 <= i < x ==> #[trigger] pixels@[s * width + i] == tga_pixel(
                            data@,
                            i,
                            y as int,
                        ),
                decreases width - x,
            {
                proof {
                    lemma_offset_in_range(
                        width as int,
                        height as int,
                        x as int,
                        height - 1 - row,
                    );
                    assert(start + 3 * (row * width + x) + 2 < len);
                }
                let at: usize = start + 3 * (row * width + x);
                pixels.push(Color(data[at + 2], data[at + 1], data[at]));
                x += 1;
            }
            proof {
                assert((s + 1) * width == s * width + width) by (nonlinear_arith);
                assert forall|px: int, py: int|
                    0 <= px < width && height - (s + 1) <= py < height implies #[trigger] pixels@[offset(
                    width as int,
                    height as int,
                    px,
                    py,
                )] == tga_pixel(data@, px, py) by {
                    lemma_offset_in_range(width as int, height as int, px, py);
                    if py == y {
                        assert(offset(width as int, height as int, px, py) == s * width + px);
                    } else {
                        let o = offset(width as int, height as int, px, py);
                        assert(o < s * width) by (nonlinear_arith)
                            requires
                                o == (height - 1 - py) * width + px,
                                height - 1 - py <= s - 1,
                                0 <= px < width,
                        ;
                        assert(pixels@[o] == done[o]);
                    }
                }
            }
            s += 1;
        }
        assert(width * height == height * width) by (nonlinear_arith);
        let r = Image::from_pixels(width as i32, height as i32, pixels);
        proof {
            let img = r->0;
            img.lemma_view();
            assert forall|p: (int, int)| img@.dom().contains(p) implies #[trigger] img@[p]
                == tga_image(data@)[p] by {}
            assert(img@ =~= tga_image(data@));
        }
        r
    }
}

} // verus!
