use crate::bit_vec::slice_to_vec;
use crate::data_ref::DataRef;
use crate::grid::Grid;
use crate::grid::lemma_index_to_coords;
use crate::grid::lemma_linear_index;
use crate::grid::lemma_linear_index_coords;
use vstd::prelude::*;

verus! {

/// A 2D grid of bytes, used to stage brightness values. Its view is the
/// row-major cell sequence of length `width * height`.
#[derive(Clone, Debug, PartialEq)]
pub struct ByteGrid {
    width: usize,
    height: usize,
    data: Vec<u8>,
}

impl View for ByteGrid {
    type V = Seq<u8>;

    open spec fn view(&self) -> Seq<u8> {
        self.bytes()
    }
}

impl ByteGrid {
    /// The raw backing bytes, one per cell.
    pub closed spec fn bytes(&self) -> Seq<u8> {
        self.data@
    }

    /// Loads a grid with the specified dimensions from a copy of `data`.
    /// Mismatched dimensions are a contract violation.
    pub fn load(width: usize, height: usize, data: &[u8]) -> (r: ByteGrid)
        requires
            width * height == data@.len(),
        ensures
            r.wf(),
            r.spec_width() == width,
            r.spec_height() == height,
            r@ == data@,
    {
        let n: usize = data.len();
        let copied: Vec<u8> = slice_to_vec(data);
        let r = ByteGrid { width, height, data: copied };
        proof {
            assert(r.spec_width() * r.spec_height() == n as int);
        }
        r
    }

    /// Consumes the grid and hands out the backing bytes without a copy.
    pub fn into_data(self) -> (r: Vec<u8>)
        ensures
            r@ == self@,
    {
        self.data
    }
}

impl Grid<u8> for ByteGrid {
    open spec fn valid_dims(width: usize, height: usize) -> bool {
        true
    }

    open spec fn wf(&self) -> bool {
        &&& self@.len() == self.spec_width() * self.spec_height()
        &&& self.spec_width() * self.spec_height() <= usize::MAX
    }

    closed spec fn spec_width(&self) -> usize {
        self.width
    }

    closed spec fn spec_height(&self) -> usize {
        self.height
    }

    open spec fn cell(&self, x: int, y: int) -> u8 {
        self@[x + y * self.spec_width()]
    }

    open spec fn empty_cell() -> u8 {
        0u8
    }

    fn new(width: usize, height: usize) -> (r: Self) {
        let size: usize = width * height;
        let data: Vec<u8> = filled_vec(size, 0);
        let r = ByteGrid { width, height, data };
        proof {
            assert forall|x: int, y: int| 0 <= x < width && 0 <= y < height implies r.cell(x, y)
                == 0u8 by {
                lemma_linear_index(x, y, width as int, height as int);
            }
        }
        r
    }

    fn get(&self, x: usize, y: usize) -> (r: u8) {
        proof {
            lemma_linear_index(
                x as int,
                y as int,
                self.spec_width() as int,
                self.spec_height() as int,
            );
        }
        self.data[x + y * self.width]
    }

    fn set(&mut self, x: usize, y: usize, value: u8) -> (r: u8) {
        proof {
            lemma_linear_index(
                x as int,
                y as int,
                self.spec_width() as int,
                self.spec_height() as int,
            );
        }
        let pos: usize = x + y * self.width;
        let r: u8 = self.data[pos];
        self.data[pos] = value;
        proof {
            let w = self.spec_width() as int;
            let h = self.spec_height() as int;
            assert forall|x2: int, y2: int|
                0 <= x2 < w && 0 <= y2 < h && !(x2 == x as int && y2 == y as int) implies self.cell(
                x2,
                y2,
            ) == old(self).cell(x2, y2) by {
                lemma_linear_index(x2, y2, w, h);
                if x2 + y2 * w == x as int + y as int * w {
                    lemma_linear_index_coords(x2, y2, w);
                    lemma_linear_index_coords(x as int, y as int, w);
                }
            }
        }
        r
    }

    fn fill(&mut self, value: u8) {
        let count: usize = self.data.len();
        let mut i: usize = 0;
        while i < count
            invariant
                i <= count,
                count == self.data@.len(),
                self.width == old(self).width,
                self.height == old(self).height,
                forall|j: int| 0 <= j < i ==> self.data@[j] == value,
            decreases count - i,
        {
            self.data[i] = value;
            i = i + 1;
        }
        proof {
            let w = self.spec_width() as int;
            let h = self.spec_height() as int;
            assert forall|x: int, y: int| 0 <= x < w && 0 <= y < h implies self.cell(x, y)
                == value by {
                lemma_linear_index(x, y, w, h);
            }
        }
    }

    fn width(&self) -> (r: usize) {
        self.width
    }

    fn height(&self) -> (r: usize) {
        self.height
    }

    fn window(&self, x: usize, y: usize, w: usize, h: usize) -> (r: Self) {
        proof {
            assert(w * h <= self.spec_width() * self.spec_height()) by (nonlinear_arith)
                requires
                    w <= self.spec_width(),
                    h <= self.spec_height(),
            ;
        }
        let mut win: ByteGrid = Self::new(w, h);
        let mut win_x: usize = 0;
        while win_x < w
            invariant
                win_x <= w,
                win.wf(),
                win.spec_width() == w,
                win.spec_height() == h,
                self.wf(),
                x + w <= self.spec_width(),
                y + h <= self.spec_height(),
                forall|i: int, j: int|
                    0 <= i < win_x && 0 <= j < h ==> win.cell(i, j) == self.cell(x + i, y + j),
            decreases w - win_x,
        {
            let mut win_y: usize = 0;
            while win_y < h
                invariant
                    win_x < w,
                    win_y <= h,
                    win.wf(),
                    win.spec_width() == w,
                    win.spec_height() == h,
                    self.wf(),
                    x + w <= self.spec_width(),
                    y + h <= self.spec_height(),
                    forall|i: int, j: int|
                        0 <= i < win_x && 0 <= j < h ==> win.cell(i, j) == self.cell(x + i, y + j),
                    forall|j: int|
                        0 <= j < win_y ==> win.cell(win_x as int, j) == self.cell(
                            x + win_x as int,
                            y + j,
                        ),
                decreases h - win_y,
            {
                let value: u8 = self.get(x + win_x, y + win_y);
                win.set(win_x, win_y, value);
                win_y = win_y + 1;
            }
            win_x = win_x + 1;
        }
        win
    }
}

impl DataRef for ByteGrid {
    open spec fn data_spec(&self) -> Seq<u8> {
        self.bytes()
    }

    open spec fn shape_eq(&self, other: &Self) -> bool {
        self.spec_width() == other.spec_width() && self.spec_height() == other.spec_height()
    }

    open spec fn data_wf(&self) -> bool {
        self.wf()
    }

    fn data_ref(&self) -> (r: &[u8]) {
        self.data.as_slice()
    }

    fn data_ref_mut(&mut self) -> (r: &mut [u8]) {
        self.data.as_mut_slice()
    }
}

/// Extracting the whole grid as a single window yields a grid equal to the
/// source: a grid of the source's dimensions whose every cell matches the
/// source cell-for-cell has the source's own cell sequence.
pub proof fn lemma_byte_grid_full_window_eq(src: ByteGrid, win: ByteGrid)
    requires
        src.wf(),
        win.wf(),
        win.spec_width() == src.spec_width(),
        win.spec_height() == src.spec_height(),
        forall|i: int, j: int|
            0 <= i < src.spec_width() && 0 <= j < src.spec_height() ==> win.cell(i, j) == src.cell(
                i,
                j,
            ),
    ensures
        win@ == src@,
{
    let w = src.spec_width() as int;
    let h = src.spec_height() as int;
    assert forall|n: int| 0 <= n < src@.len() implies win@[n] == src@[n] by {
        assert(w > 0) by (nonlinear_arith)
            requires
                0 <= n < w * h,
                w >= 0,
        ;
        lemma_index_to_coords(n, w, h);
        assert(win.cell(n % w, n / w) == src.cell(n % w, n / w));
    }
    assert(win@ =~= src@);
}

/// Creates a vector of `len` copies of `value`.
fn filled_vec(len: usize, value: u8) -> (r: Vec<u8>)
    ensures
        r@.len() == len,
        forall|j: int| 0 <= j < len ==> r@[j] == value,
{
    let mut data: Vec<u8> = Vec::new();
    while data.len() < len
        invariant
            data@.len() <= len,
            forall|j: int| 0 <= j < data@.len() ==> data@[j] == value,
        decreases len - data@.len(),
    {
        data.push(value);
    }
    data
}

} // verus!
