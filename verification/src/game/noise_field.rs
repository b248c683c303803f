//! A field of noise samples over a rectangle of cells, from which the walls
//! of a new map are taken.

use vstd::prelude::*;

verus! {

/// One integer sample for each cell of a `width` by `height` rectangle, row
/// by row. Outside the rectangle the field is zero.
pub struct NoiseField {
    width: u32,
    height: u32,
    samples: Vec<i64>,
}

impl View for NoiseField {
    type V = Seq<i64>;

    /// The samples, row by row.
    closed spec fn view(&self) -> Seq<i64> {
        self.samples@
    }
}

impl NoiseField {
    /// Number of columns that have samples.
    pub closed spec fn spec_width(&self) -> int {
        self.width as int
    }

    /// Number of rows that have samples.
    pub closed spec fn spec_height(&self) -> int {
        self.height as int
    }

    /// There is one sample for each cell.
    pub open spec fn wf(&self) -> bool {
        self@.len() == self.spec_width() * self.spec_height()
    }

    /// The sample at `(x, y)`; zero outside the rectangle.
    pub open spec fn at(&self, x: int, y: int) -> int {
        if 0 <= x < self.spec_width() && 0 <= y < self.spec_height() {
            self@[y * self.spec_width() + x] as int
        } else {
            0
        }
    }

    /// The field of `samples` over a `width` by `height` rectangle, the
    /// samples of row 0 first; `None` where their number is not `width`
    /// times `height`.
    pub fn new(width: u32, height: u32, samples: Vec<i64>) -> (made: Option<NoiseField>)
        ensures
            made is Some <==> samples@.len() == width * height,
            made matches Some(field) ==> {
                &&& field.wf()
                &&& field.spec_width() == width
                &&& field.spec_height() == height
                &&& field@ == samples@
            },
    {
        assert(width * height <= 0xFFFF_FFFF * 0xFFFF_FFFF) by (nonlinear_arith)
            requires
                width <= 0xFFFF_FFFF,
                height <= 0xFFFF_FFFF,
        ;
        let cells: u64 = width as u64 * height as u64;
        if samples.len() as u64 != cells {
            return None;
        }
        Some(NoiseField { width, height, samples })
    }

    /// Number of columns that have samples.
    pub fn width(&self) -> (w: u32)
        ensures
            w == self.spec_width(),
    {
        self.width
    }

    /// Number of rows that have samples.
    pub fn height(&self) -> (h: u32)
        ensures
            h == self.spec_height(),
    {
        self.height
    }

    /// The sample at `(x, y)`; zero outside the rectangle.
    pub fn get_value(&self, x: i64, y: i64) -> (value: i64)
        requires
            self.wf(),
        ensures
            value == self.at(x as int, y as int),
    {
        if 0 <= x && x < self.width as i64 && 0 <= y && y < self.height as i64 {
            let w: usize = self.width as usize;
            let col: usize = x as usize;
            let row: usize = y as usize;
            assert(0 <= row * w && row * w + col < self.width * self.height) by (nonlinear_arith)
                requires
                    0 <= col < w,
                    0 <= row < self.height,
                    w == self.width,
            ;
            assert(self.width * self.height == self.samples.len());
            self.samples[row * w + col]
        } else {
            0
        }
    }
}

} // verus!
