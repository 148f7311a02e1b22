use crate::PIXEL_HEIGHT;
use crate::PIXEL_WIDTH;
use crate::bit_vec::BitVec;
use crate::bit_vec::bits_of_bytes;
use crate::bit_vec::byte_len_for;
use crate::bit_vec::lemma_byte_len_split;
use crate::data_ref::DataRef;
use crate::grid::Grid;
use crate::grid::lemma_index_to_coords;
use crate::grid::lemma_linear_index;
use crate::grid::lemma_linear_index_coords;
use vstd::arithmetic::div_mod::lemma_fundamental_div_mod;
use vstd::arithmetic::div_mod::lemma_fundamental_div_mod_converse;
use vstd::prelude::*;

verus! {

/// A 2D grid of boolean pixels stored in packed bytes. Its view is the
/// row-major cell sequence of length `width * height`; the width must be a
/// multiple of 8, as the packed storage and the hardware's tile layout
/// require.
#[derive(Clone, Debug, PartialEq)]
pub struct PixelGrid {
    width: usize,
    height: usize,
    bit_vec: BitVec,
}

impl View for PixelGrid {
    type V = Seq<bool>;

    open spec fn view(&self) -> Seq<bool> {
        self.bits()
    }
}

impl PixelGrid {
    /// The pixel values, row-major.
    pub closed spec fn bits(&self) -> Seq<bool> {
        self.bit_vec@
    }

    /// The raw backing bytes, eight pixels per byte.
    pub closed spec fn bytes(&self) -> Seq<u8> {
        self.bit_vec.bytes()
    }

    /// Creates a pixel grid with the size of the whole screen.
    pub fn max_sized() -> (r: PixelGrid)
        ensures
            r.wf(),
            r.spec_width() == PIXEL_WIDTH,
            r.spec_height() == PIXEL_HEIGHT,
            forall|x: int, y: int| 0 <= x < PIXEL_WIDTH && 0 <= y < PIXEL_HEIGHT ==> !r.cell(x, y),
    {
        Grid::new(PIXEL_WIDTH, PIXEL_HEIGHT)
    }

    /// Loads a grid with the specified dimensions from a copy of the packed
    /// bytes in `data`. Mismatched dimensions or a width that is not a
    /// multiple of 8 are contract violations.
    pub fn load(width: usize, height: usize, data: &[u8]) -> (r: PixelGrid)
        requires
            width % 8 == 0,
            width * height == data@.len() * 8,
            width * height <= usize::MAX,
        ensures
            r.wf(),
            r.spec_width() == width,
            r.spec_height() == height,
            r@ == bits_of_bytes(data@),
    {
        let bit_vec = BitVec::from_bytes(data);
        PixelGrid { width, height, bit_vec }
    }

    /// Consumes the grid and hands out the packed backing bytes without a
    /// copy.
    pub fn into_data(self) -> (r: Vec<u8>)
        ensures
            r@ == self.bytes(),
    {
        self.bit_vec.into_data()
    }
}

impl Grid<bool> for PixelGrid {
    open spec fn valid_dims(width: usize, height: usize) -> bool {
        width % 8 == 0
    }

    closed spec fn wf(&self) -> bool {
        &&& self.bit_vec.wf()
        &&& self.bit_vec@.len() == self.width * self.height
        &&& self.width % 8 == 0
        &&& self.width * self.height <= usize::MAX
    }

    closed spec fn spec_width(&self) -> usize {
        self.width
    }

    closed spec fn spec_height(&self) -> usize {
        self.height
    }

    open spec fn cell(&self, x: int, y: int) -> bool {
        self@[x + y * self.spec_width()]
    }

    open spec fn empty_cell() -> bool {
        false
    }

    fn new(width: usize, height: usize) -> (r: Self) {
        let bit_vec = BitVec::new(width * height);
        let r = PixelGrid { width, height, bit_vec };
        proof {
            assert forall|x: int, y: int| 0 <= x < width && 0 <= y < height implies !r.cell(
                x,
                y,
            ) by {
                lemma_linear_index(x, y, width as int, height as int);
            }
        }
        r
    }

    fn get(&self, x: usize, y: usize) -> (r: bool) {
        proof {
            lemma_linear_index(
                x as int,
                y as int,
                self.spec_width() as int,
                self.spec_height() as int,
            );
        }
        self.bit_vec.get(x + y * self.width)
    }

    fn set(&mut self, x: usize, y: usize, value: bool) -> (r: bool) {
        proof {
            lemma_linear_index(
                x as int,
                y as int,
                self.spec_width() as int,
                self.spec_height() as int,
            );
        }
        let pos: usize = x + y * self.width;
        let r: bool = self.bit_vec.set(pos, value);
        proof {
            let w = self.spec_width() as int;
            let h = self.spec_height() as int;
            assert forall|x2: int, y2: int|
                0 <= x2 < w && 0 <= y2 < h && !(x2 == x as int && y2 == y as int) implies self.cell(
                x2,
                y2,
            ) == old(self).cell(x2, y2) by {
                lemma_linear_index(x2, y2, w, h);
                if x2 + y2 * w == x as int + y as int * w {
                    lemma_linear_index_coords(x2, y2, w);
                    lemma_linear_index_coords(x as int, y as int, w);
                }
            }
        }
        r
    }

    fn fill(&mut self, value: bool) {
        self.bit_vec.fill(value);
        proof {
            let w = self.spec_width() as int;
            let h = self.spec_height() as int;
            assert forall|x: int, y: int| 0 <= x < w && 0 <= y < h implies self.cell(x, y)
                == value by {
                lemma_linear_index(x, y, w, h);
            }
        }
    }

    fn width(&self) -> (r: usize) {
        self.width
    }

    fn height(&self) -> (r: usize) {
        self.height
    }

    fn window(&self, x: usize, y: usize, w: usize, h: usize) -> (r: Self) {
        proof {
            assert(w * h <= self.spec_width() * self.spec_height()) by (nonlinear_arith)
                requires
                    w <= self.spec_width(),
                    h <= self.spec_height(),
            ;
        }
        let mut win: PixelGrid = Grid::new(w, h);
        let mut win_x: usize = 0;
        while win_x < w
            invariant
                win_x <= w,
                win.wf(),
                win.spec_width() == w,
                win.spec_height() == h,
                self.wf(),
                x + w <= self.spec_width(),
                y + h <= self.spec_height(),
                forall|i: int, j: int|
                    0 <= i < win_x && 0 <= j < h ==> win.cell(i, j) == self.cell(x + i, y + j),
            decreases w - win_x,
        {
            let mut win_y: usize = 0;
            while win_y < h
                invariant
                    win_x < w,
                    win_y <= h,
                    win.wf(),
                    win.spec_width() == w,
                    win.spec_height() == h,
                    self.wf(),
                    x + w <= self.spec_width(),
                    y + h <= self.spec_height(),
                    forall|i: int, j: int|
                        0 <= i < win_x && 0 <= j < h ==> win.cell(i, j) == self.cell(x + i, y + j),
                    forall|j: int|
                        0 <= j < win_y ==> win.cell(win_x as int, j) == self.cell(
                            x + win_x as int,
                            y + j,
                        ),
                decreases h - win_y,
            {
                let value: bool = self.get(x + win_x, y + win_y);
                win.set(win_x, win_y, value);
                win_y = win_y + 1;
            }
            win_x = win_x + 1;
        }
        win
    }
}

impl DataRef for PixelGrid {
    open spec fn data_spec(&self) -> Seq<u8> {
        self.bytes()
    }

    open spec fn shape_eq(&self, other: &Self) -> bool {
        self.spec_width() == other.spec_width() && self.spec_height() == other.spec_height()
    }

    open spec fn data_wf(&self) -> bool {
        self.wf()
    }

    fn data_ref(&self) -> (r: &[u8]) {
        self.bit_vec.data_ref()
    }

    fn data_ref_mut(&mut self) -> (r: &mut [u8]) {
        self.bit_vec.data_ref_mut()
    }
}

/// A boolean grid round-trips through its raw bytes: the bit sequence packed
/// in a well-formed grid's backing bytes is exactly the grid's cell sequence,
/// so loading those bytes at the grid's own dimensions restores every cell.
pub proof fn lemma_pixel_grid_round_trip(g: PixelGrid)
    requires
        g.wf(),
    ensures
        bits_of_bytes(g.bytes()) == g@,
{
    let w = g.spec_width() as int;
    let h = g.spec_height() as int;
    let bits = w * h;
    lemma_fundamental_div_mod(w, 8);
    let q = w / 8;
    assert((8 * q) * h == 8 * (q * h)) by (nonlinear_arith);
    lemma_fundamental_div_mod_converse(bits, 8, q * h, 0);
    lemma_byte_len_split(bits);
    assert(g.bytes().len() * 8 == bits);
    assert(bits_of_bytes(g.bytes()) =~= g@);
}

/// Extracting the whole grid as a single window yields a grid equal to the
/// source: a grid of the source's dimensions whose every cell matches the
/// source cell-for-cell has the source's own cell sequence.
pub proof fn lemma_pixel_grid_full_window_eq(src: PixelGrid, win: PixelGrid)
    requires
        src.wf(),
        win.wf(),
        win.spec_width() == src.spec_width(),
        win.spec_height() == src.spec_height(),
        forall|i: int, j: int|
            0 <= i < src.spec_width() && 0 <= j < src.spec_height() ==> win.cell(i, j) == src.cell(
                i,
                j,
            ),
    ensures
        win@ == src@,
{
    let w = src.spec_width() as int;
    let h = src.spec_height() as int;
    assert forall|n: int| 0 <= n < src@.len() implies win@[n] == src@[n] by {
        assert(w > 0) by (nonlinear_arith)
            requires
                0 <= n < w * h,
                w >= 0,
        ;
        lemma_index_to_coords(n, w, h);
        assert(win.cell(n % w, n / w) == src.cell(n % w, n / w));
    }
    assert(win@ =~= src@);
}

} // verus!
