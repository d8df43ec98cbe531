use vstd::prelude::*;

verus! {

/// A two-dimensional integer coordinate.  Its mathematical model is the pair
/// `(x, y)` of integers returned by `pos`.
pub trait Coord: Sized {
    spec fn pos(&self) -> (int, int);

    fn from_2d(x: i32, y: i32) -> (r: Self)
        ensures
            r.pos() == (x as int, y as int),
    ;

    fn x(&self) -> (r: i32)
        ensures
            r as int == self.pos().0,
    ;

    fn y(&self) -> (r: i32)
        ensures
            r as int == self.pos().1,
    ;

    /// Linear (row-major) offset of this coordinate in a lattice of `cols`
    /// columns.  Bounds are the caller's concern.
    fn offset(&self, cols: i32) -> (r: usize)
        requires
            0 <= self.pos().0,
            0 <= self.pos().1,
            0 <= cols,
            self.pos().1 * cols + self.pos().0 <= usize::MAX,
        ensures
            r as int == linear_offset(self.pos(), cols as int),
    ;

    /// The coordinate that lies at a linear offset of a lattice of `cols`
    /// columns.
    fn from_offset(offset: i32, rows: i32, cols: i32) -> (r: Self)
        requires
            0 <= offset,
            0 < cols,
        ensures
            r.pos() == coord_of(offset as int, cols as int),
    ;
}

/// Row-major offset of `p` in a lattice of `cols` columns.
pub open spec fn linear_offset(p: (int, int), cols: int) -> int {
    p.1 * cols + p.0
}

/// Coordinate of the cell at a row-major offset in a lattice of `cols` columns.
pub open spec fn coord_of(offset: int, cols: int) -> (int, int) {
    (offset % cols, offset / cols)
}

/// Whether `p` lies inside a lattice of `rows` rows and `cols` columns.
pub open spec fn in_grid(p: (int, int), rows: int, cols: int) -> bool {
    0 <= p.0 < cols && 0 <= p.1 < rows
}

/// The coordinate of an offset is in the grid, and its offset is the offset
/// itself.
pub proof fn lemma_coord_of_offset(offset: int, rows: int, cols: int)
    requires
        0 < cols,
        0 <= offset < rows * cols,
    ensures
        in_grid(coord_of(offset, cols), rows, cols),
        linear_offset(coord_of(offset, cols), cols) == offset,
{
    assert(offset / cols < rows) by (nonlinear_arith)
        requires
            0 < cols,
            0 <= offset < rows * cols,
    ;
    assert(offset == (offset / cols) * cols + offset % cols) by (nonlinear_arith)
        requires
            0 < cols,
    ;
    assert(offset / cols >= 0) by (nonlinear_arith)
        requires
            0 < cols,
            0 <= offset,
    ;
}

/// An in-grid coordinate has an offset below `rows * cols`, and the
/// coordinate of that offset is the coordinate itself.
pub proof fn lemma_offset_of_coord(p: (int, int), rows: int, cols: int)
    requires
        in_grid(p, rows, cols),
    ensures
        0 <= linear_offset(p, cols) < rows * cols,
        coord_of(linear_offset(p, cols), cols) == p,
{
    assert(0 <= p.1 * cols + p.0 < rows * cols) by (nonlinear_arith)
        requires
            0 <= p.0 < cols,
            0 <= p.1 < rows,
    ;
    assert((p.1 * cols + p.0) / cols == p.1 && (p.1 * cols + p.0) % cols == p.0)
        by (nonlinear_arith)
        requires
            0 <= p.0 < cols,
            0 <= p.1,
    ;
}

/// A coordinate of the rectangular grid.
#[derive(Clone, Copy, Debug, PartialEq, Eq, Structural)]
pub struct GridCoord {
    pub x: i32,
    pub y: i32,
}

impl Coord for GridCoord {
    open spec fn pos(&self) -> (int, int) {
        (self.x as int, self.y as int)
    }

    fn from_2d(x: i32, y: i32) -> (r: Self) {
        GridCoord { x, y }
    }

    fn x(&self) -> (r: i32) {
        self.x
    }

    fn y(&self) -> (r: i32) {
        self.y
    }

    fn offset(&self, cols: i32) -> (r: usize) {
        (self.y as usize) * (cols as usize) + (self.x as usize)
    }

    fn from_offset(offset: i32, rows: i32, cols: i32) -> (r: Self) {
        GridCoord { x: offset % cols, y: offset / cols }
    }
}

impl Coord for (i32, i32) {
    open spec fn pos(&self) -> (int, int) {
        (self.0 as int, self.1 as int)
    }

    fn from_2d(x: i32, y: i32) -> (r: Self) {
        (x, y)
    }

    fn x(&self) -> (r: i32) {
        self.0
    }

    fn y(&self) -> (r: i32) {
        self.1
    }

    fn offset(&self, cols: i32) -> (r: usize) {
        (self.1 as usize) * (cols as usize) + (self.0 as usize)
    }

    fn from_offset(offset: i32, rows: i32, cols: i32) -> (r: Self) {
        (offset % cols, offset / cols)
    }
}

} // verus!
