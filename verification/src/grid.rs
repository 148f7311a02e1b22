use vstd::arithmetic::div_mod::lemma_fundamental_div_mod;
use vstd::arithmetic::div_mod::lemma_fundamental_div_mod_converse;
use vstd::prelude::*;

verus! {

/// The shared interface of the two grid containers: uniform `(x, y)`
/// addressing with `0 <= x < width` and `0 <= y < height`, point get/set,
/// whole-grid fill, and windowed extraction. Cell `(x, y)` sits at linear
/// index `x + y * width` (row-major).
///
/// Out-of-range coordinates and invalid dimensions are contract violations:
/// the `requires` clauses reject them instead of silently truncating.
pub trait Grid<T: Copy>: Sized {
    /// The dimension constraint the concrete container puts on creation.
    spec fn valid_dims(width: usize, height: usize) -> bool;

    /// The container's internal invariant.
    spec fn wf(&self) -> bool;

    /// Width in cells.
    spec fn spec_width(&self) -> usize;

    /// Height in cells.
    spec fn spec_height(&self) -> usize;

    /// The value of cell `(x, y)`.
    spec fn cell(&self, x: int, y: int) -> T;

    /// The value every cell of a newly created grid holds.
    spec fn empty_cell() -> T;

    /// Creates a grid of the given dimensions with every cell empty.
    fn new(width: usize, height: usize) -> (r: Self)
        requires
            Self::valid_dims(width, height),
            width * height <= usize::MAX,
        ensures
            r.wf(),
            r.spec_width() == width,
            r.spec_height() == height,
            forall|x: int, y: int|
                0 <= x < width && 0 <= y < height ==> r.cell(x, y) == Self::empty_cell(),
    ;

    /// Reads the cell at `(x, y)`.
    fn get(&self, x: usize, y: usize) -> (r: T)
        requires
            self.wf(),
            x < self.spec_width(),
            y < self.spec_height(),
        ensures
            r == self.cell(x as int, y as int),
    ;

    /// Writes `value` at `(x, y)`, leaves every other cell unchanged, and
    /// returns the previous value.
    fn set(&mut self, x: usize, y: usize, value: T) -> (r: T)
        requires
            old(self).wf(),
            x < old(self).spec_width(),
            y < old(self).spec_height(),
        ensures
            final(self).wf(),
            final(self).spec_width() == old(self).spec_width(),
            final(self).spec_height() == old(self).spec_height(),
            final(self).cell(x as int, y as int) == value,
            forall|x2: int, y2: int|
                0 <= x2 < old(self).spec_width() && 0 <= y2 < old(self).spec_height() && !(x2
                    == x as int && y2 == y as int) ==> final(self).cell(x2, y2) == old(self).cell(
                    x2,
                    y2,
                ),
            r == old(self).cell(x as int, y as int),
    ;

    /// Sets every cell to `value`.
    fn fill(&mut self, value: T)
        requires
            old(self).wf(),
        ensures
            final(self).wf(),
            final(self).spec_width() == old(self).spec_width(),
            final(self).spec_height() == old(self).spec_height(),
            forall|x: int, y: int|
                0 <= x < old(self).spec_width() && 0 <= y < old(self).spec_height()
                    ==> final(self).cell(x, y) == value,
    ;

    /// Width in cells.
    fn width(&self) -> (r: usize)
        ensures
            r == self.spec_width(),
    ;

    /// Height in cells.
    fn height(&self) -> (r: usize)
        ensures
            r == self.spec_height(),
    ;

    /// Copies the `w` by `h` sub-rectangle whose top-left corner is `(x, y)`
    /// into a new grid of that size. A window that runs past the source edge
    /// is a contract violation.
    fn window(&self, x: usize, y: usize, w: usize, h: usize) -> (r: Self)
        requires
            self.wf(),
            x + w <= self.spec_width(),
            y + h <= self.spec_height(),
            Self::valid_dims(w, h),
        ensures
            r.wf(),
            r.spec_width() == w,
            r.spec_height() == h,
            forall|i: int, j: int|
                0 <= i < w && 0 <= j < h ==> r.cell(i, j) == self.cell(x + i, y + j),
    ;
}

/// A cell inside the grid maps to a linear index inside the storage.
pub(crate) proof fn lemma_linear_index(x: int, y: int, w: int, h: int)
    requires
        0 <= x < w,
        0 <= y < h,
    ensures
        0 <= x + y * w < w * h,
{
    assert(x + y * w < w * h) by (nonlinear_arith)
        requires
            0 <= x < w,
            0 <= y < h,
    ;
}

/// Distinct cells map to distinct linear indexes: the index determines the
/// coordinates by division and remainder.
pub(crate) proof fn lemma_linear_index_coords(x: int, y: int, w: int)
    requires
        0 <= x < w,
        0 <= y,
    ensures
        (x + y * w) % w == x,
        (x + y * w) / w == y,
{
    lemma_fundamental_div_mod_converse(x + y * w, w, y, x);
}

/// A linear index inside the storage maps back to a cell of the grid.
pub(crate) proof fn lemma_index_to_coords(n: int, w: int, h: int)
    requires
        0 <= n < w * h,
        0 < w,
    ensures
        0 <= n % w < w,
        0 <= n / w < h,
        (n % w) + (n / w) * w == n,
{
    lemma_fundamental_div_mod(n, w);
    assert(w * (n / w) == (n / w) * w) by (nonlinear_arith);
    assert(0 <= n % w < w) by (nonlinear_arith)
        requires
            0 <= n,
            0 < w,
    ;
    if n / w < 0 {
        assert(w * (n / w) + n % w < 0) by (nonlinear_arith)
            requires
                n / w < 0,
                0 < w,
                n % w < w,
        ;
    }
    if n / w >= h {
        assert(w * (n / w) + n % w >= w * h) by (nonlinear_arith)
            requires
                n / w >= h,
                0 < w,
                0 <= n % w,
        ;
    }
}

} // verus!
