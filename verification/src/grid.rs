use vstd::prelude::*;

verus! {

/// The pixel coordinates of a `width` x `height` raster: `x` runs to the right
/// from 0, `y` runs upwards from 0.
pub open spec fn rect(width: int, height: int) -> Set<(int, int)> {
    Set::new(|p: (int, int)| 0 <= p.0 < width && 0 <= p.1 < height)
}

/// What a read at `(x, y)` yields: the stored cell inside the raster, the
/// value `outside` everywhere else.
pub open spec fn sample<T>(cells: Map<(int, int), T>, x: int, y: int, outside: T) -> T {
    if cells.dom().contains((x, y)) {
        cells[(x, y)]
    } else {
        outside
    }
}

/// What a write at `(x, y)` leaves behind: the cell replaced inside the
/// raster, nothing changed for a coordinate outside it.
pub open spec fn plot<T>(cells: Map<(int, int), T>, x: int, y: int, value: T) -> Map<
    (int, int),
    T,
> {
    if cells.dom().contains((x, y)) {
        cells.insert((x, y), value)
    } else {
        cells
    }
}

/// Position of pixel `(x, y)` in row-major storage whose first row is the
/// top row of the raster.
pub open spec fn offset(width: int, height: int, x: int, y: int) -> int {
    (height - 1 - y) * width + x
}

/// The raster that row-major storage `cells` describes.
pub open spec fn raster<T>(width: int, height: int, cells: Seq<T>) -> Map<(int, int), T> {
    Map::new(
        |p: (int, int)| rect(width, height).contains(p),
        |p: (int, int)| cells[offset(width, height, p.0, p.1)],
    )
}

/// Every pixel of the raster has a storage position below `width * height`.
pub proof fn lemma_offset_in_range(width: int, height: int, x: int, y: int)
    requires
        0 <= x < width,
        0 <= y < height,
    ensures
        0 <= offset(width, height, x, y) < width * height,
{
    let row = height - 1 - y;
    assert(0 <= row * width) by (nonlinear_arith)
        requires
            0 <= row,
            0 <= width,
    ;
    assert(row * width + width <= height * width) by (nonlinear_arith)
        requires
            row + 1 <= height,
            0 <= width,
    ;
    assert(height * width == width * height) by (nonlinear_arith);
}

/// Two pixels of the raster share a storage position only if they are the
/// same pixel.
pub proof fn lemma_offset_injective(width: int, height: int, x1: int, y1: int, x2: int, y2: int)
    requires
        0 <= x1 < width,
        0 <= y1 < height,
        0 <= x2 < width,
        0 <= y2 < height,
        offset(width, height, x1, y1) == offset(width, height, x2, y2),
    ensures
        x1 == x2,
        y1 == y2,
{
    let r1 = height - 1 - y1;
    let r2 = height - 1 - y2;
    if r1 < r2 {
        assert(r1 * width + width <= r2 * width) by (nonlinear_arith)
            requires
                r1 + 1 <= r2,
                0 <= width,
        ;
    } else if r2 < r1 {
        assert(r2 * width + width <= r1 * width) by (nonlinear_arith)
            requires
                r2 + 1 <= r1,
                0 <= width,
        ;
    }
}

/// Replacing one stored cell is a write to the pixel it belongs to.
pub proof fn lemma_raster_update<T>(width: int, height: int, cells: Seq<T>, x: int, y: int, value: T)
    requires
        0 <= x < width,
        0 <= y < height,
        cells.len() == width * height,
    ensures
        raster(width, height, cells.update(offset(width, height, x, y), value)) == plot(
            raster(width, height, cells),
            x,
            y,
            value,
        ),
{
    let o = offset(width, height, x, y);
    lemma_offset_in_range(width, height, x, y);
    let after = raster(width, height, cells.update(o, value));
    let expected = plot(raster(width, height, cells), x, y, value);
    assert forall|p: (int, int)| after.dom().contains(p) implies #[trigger] after[p] == expected[p] by {
        lemma_offset_in_range(width, height, p.0, p.1);
        if p != (x, y) {
            if offset(width, height, p.0, p.1) == o {
                lemma_offset_injective(width, height, p.0, p.1, x, y);
            }
        }
    }
    assert(after =~= expected);
}

/// Row-major storage of a `width` x `height` raster, first row on top.
pub(crate) struct Raster<T> {
    width: i32,
    height: i32,
    data: Vec<T>,
}

impl<T: Copy> Raster<T> {
    pub(crate) closed spec fn wf(&self) -> bool {
        &&& 0 <= self.width
        &&& 0 <= self.height
        &&& self.data@.len() == self.width * self.height
    }

    pub(crate) closed spec fn spec_width(&self) -> int {
        self.width as int
    }

    pub(crate) closed spec fn spec_height(&self) -> int {
        self.height as int
    }

    /// The stored cells, top row first.
    pub(crate) closed spec fn cells(&self) -> Seq<T> {
        self.data@
    }

    pub(crate) open spec fn view(&self) -> Map<(int, int), T> {
        raster(self.spec_width(), self.spec_height(), self.cells())
    }

    pub(crate) proof fn lemma_cells_len(&self)
        requires
            self.wf(),
        ensures
            0 <= self.spec_width(),
            0 <= self.spec_height(),
            self.cells().len() == self.spec_width() * self.spec_height(),
    {
    }

    pub(crate) fn filled(width: i32, height: i32, value: T) -> (r: Self)
        requires
            0 <= width,
            0 <= height,
            width * height <= usize::MAX,
        ensures
            r.wf(),
            r.spec_width() == width,
            r.spec_height() == height,
            r.cells() == Seq::new((width * height) as nat, |i: int| value),
    {
        let n: usize = (width as usize) * (height as usize);
        let mut data: Vec<T> = Vec::new();
        let mut i: usize = 0;
        while i < n
            invariant
                i <= n,
                data@.len() == i,
                forall|j: int| 0 <= j < i ==> data@[j] == value,
            decreases n - i,
        {
            data.push(value);
            i += 1;
        }
        assert(data@ =~= Seq::new((width * height) as nat, |i: int| value));
        Raster { width, height, data }
    }

    pub(crate) fn from_cells(width: i32, height: i32, data: Vec<T>) -> (r: Option<Self>)
        ensures
            r is Some <==> 0 <= width && 0 <= height && data@.len() == width * height,
            r is Some ==> {
                &&& r->0.wf()
                &&& r->0.spec_width() == width
                &&& r->0.spec_height() == height
                &&& r->0.cells() == data@
            },
    {
        if width < 0 || height < 0 {
            return None;
        }
        assert((width as u64) * (height as u64) <= 0x7fff_ffff * 0x7fff_ffff) by (nonlinear_arith)
            requires
                0 <= width <= 0x7fff_ffff,
                0 <= height <= 0x7fff_ffff,
        ;
        if (width as u64) * (height as u64) != data.len() as u64 {
            return None;
        }
        Some(Raster { width, height, data })
    }

    pub(crate) fn width(&self) -> (w: i32)
        requires
            self.wf(),
        ensures
            w == self.spec_width(),
            0 <= w,
    {
        self.width
    }

    pub(crate) fn height(&self) -> (h: i32)
        requires
            self.wf(),
        ensures
            h == self.spec_height(),
            0 <= h,
    {
        self.height
    }

    /// The number of stored cells.
    pub(crate) fn len(&self) -> (n: usize)
        ensures
            n == self.cells().len(),
    {
        self.data.len()
    }

    /// The cell at storage position `i`.
    pub(crate) fn cell(&self, i: usize) -> (v: T)
        requires
            i < self.cells().len(),
        ensures
            v == self.cells()[i as int],
    {
        self.data[i]
    }

    /// Replaces the cell at storage position `i`.
    pub(crate) fn set_cell(&mut self, i: usize, value: T)
        requires
            old(self).wf(),
            i < old(self).cells().len(),
        ensures
            final(self).wf(),
            final(self).spec_width() == old(self).spec_width(),
            final(self).spec_height() == old(self).spec_height(),
            final(self).cells() == old(self).cells().update(i as int, value),
    {
        self.data.set(i, value);
    }

    /// Where pixel `(x, y)` lies in `data`.
    fn position(&self, x: i32, y: i32) -> (i: usize)
        requires
            self.wf(),
            0 <= x < self.width,
            0 <= y < self.height,
        ensures
            i == offset(self.width as int, self.height as int, x as int, y as int),
            i < self.data@.len(),
    {
        let len: usize = self.data.len();
        let row: usize = (self.height - 1 - y) as usize;
        proof {
            lemma_offset_in_range(self.width as int, self.height as int, x as int, y as int);
            assert(row as int * (self.width as int) == (self.height - 1 - y) * self.width);
            assert(0 <= row as int * (self.width as int)) by (nonlinear_arith)
                requires
                    0 <= row as int,
                    0 <= self.width as int,
            ;
        }
        row * (self.width as usize) + (x as usize)
    }

    pub(crate) fn get(&self, x: i32, y: i32, outside: T) -> (v: T)
        requires
            self.wf(),
        ensures
            v == sample(self.view(), x as int, y as int, outside),
    {
        if 0 <= x && x < self.width && 0 <= y && y < self.height {
            let i: usize = self.position(x, y);
            self.data[i]
        } else {
            outside
        }
    }

    pub(crate) fn set(&mut self, x: i32, y: i32, value: T)
        requires
            old(self).wf(),
        ensures
            final(self).wf(),
            final(self).spec_width() == old(self).spec_width(),
            final(self).spec_height() == old(self).spec_height(),
            final(self).view() == plot(old(self).view(), x as int, y as int, value),
    {
        if 0 <= x && x < self.width && 0 <= y && y < self.height {
            proof {
                lemma_raster_update(
                    self.width as int,
                    self.height as int,
                    self.data@,
                    x as int,
                    y as int,
                    value,
                );
            }
            let i: usize = self.position(x, y);
            self.data.set(i, value);
        }
    }
}

} // verus!
