use vstd::prelude::*;
use crate::coord::Coord;

verus! {

/// A neighbourhood topology: for each coordinate, an ordered sequence of
/// candidate neighbour coordinates of fixed length.  Nothing here checks
/// whether a candidate lies inside a grid.
pub trait Nhood {
    /// The candidate neighbours of `p`, in slot order.
    spec fn spec_neighbors(&self, p: (int, int)) -> Seq<(int, int)>;

    /// The number of neighbour slots.
    spec fn spec_count(&self) -> nat;

    fn neighbors<C: Coord>(&self, coord: &C) -> (r: Vec<C>)
        requires
            i32::MIN < coord.pos().0 < i32::MAX,
            i32::MIN < coord.pos().1 < i32::MAX,
        ensures
            r@.len() == self.spec_count(),
            self.spec_neighbors(coord.pos()).len() == self.spec_count(),
            forall|k: int|
                0 <= k < r@.len() ==> #[trigger] r@[k].pos() == self.spec_neighbors(
                    coord.pos(),
                )[k],
    ;

    fn neighbors_count(&self) -> (r: usize)
        ensures
            r as nat == self.spec_count(),
    ;
}

/// The four orthogonal neighbours, in reading order: north, west, east,
/// south.
#[derive(Clone, Copy, Debug)]
pub struct VonNeumannNhood {}

impl VonNeumannNhood {
    pub fn new() -> (r: Self) {
        VonNeumannNhood {  }
    }
}

impl Nhood for VonNeumannNhood {
    open spec fn spec_neighbors(&self, p: (int, int)) -> Seq<(int, int)> {
        let (x, y) = p;
        seq![(x, y - 1), (x - 1, y), (x + 1, y), (x, y + 1)]
    }

    open spec fn spec_count(&self) -> nat {
        4
    }

    fn neighbors<C: Coord>(&self, coord: &C) -> (r: Vec<C>) {
        let x = coord.x();
        let y = coord.y();
        let r = vec![
            C::from_2d(x, y - 1),
            C::from_2d(x - 1, y),
            C::from_2d(x + 1, y),
            C::from_2d(x, y + 1),
        ];
        r
    }

    fn neighbors_count(&self) -> (r: usize) {
        4
    }
}

/// The eight orthogonal and diagonal neighbours, in reading order.
#[derive(Clone, Copy, Debug)]
pub struct MooreNhood {}

impl MooreNhood {
    pub fn new() -> (r: Self) {
        MooreNhood {  }
    }
}

impl Nhood for MooreNhood {
    open spec fn spec_neighbors(&self, p: (int, int)) -> Seq<(int, int)> {
        let (x, y) = p;
        seq![
            (x - 1, y - 1),
            (x, y - 1),
            (x + 1, y - 1),
            (x - 1, y),
            (x + 1, y),
            (x - 1, y + 1),
            (x, y + 1),
            (x + 1, y + 1),
        ]
    }

    open spec fn spec_count(&self) -> nat {
        8
    }

    fn neighbors<C: Coord>(&self, coord: &C) -> (r: Vec<C>) {
        let x = coord.x();
        let y = coord.y();
        let r = vec![
            C::from_2d(x - 1, y - 1),
            C::from_2d(x, y - 1),
            C::from_2d(x + 1, y - 1),
            C::from_2d(x - 1, y),
            C::from_2d(x + 1, y),
            C::from_2d(x - 1, y + 1),
            C::from_2d(x, y + 1),
            C::from_2d(x + 1, y + 1),
        ];
        r
    }

    fn neighbors_count(&self) -> (r: usize) {
        8
    }
}

/// The six neighbours of a hexagonal lattice stored with every row shifted
/// half a cell:
///
/// ```text
///  0 1
/// 2   3
///  4 5
/// ```
///
/// that is north-west, north-east, west, east, south-west, south-east.
#[derive(Clone, Copy, Debug)]
pub struct HexagonalNhood {}

impl HexagonalNhood {
    pub fn new() -> (r: Self) {
        HexagonalNhood {  }
    }
}

impl Nhood for HexagonalNhood {
    open spec fn spec_neighbors(&self, p: (int, int)) -> Seq<(int, int)> {
        let (x, y) = p;
        seq![(x - 1, y - 1), (x, y - 1), (x - 1, y), (x + 1, y), (x - 1, y + 1), (x, y + 1)]
    }

    open spec fn spec_count(&self) -> nat {
        6
    }

    fn neighbors<C: Coord>(&self, coord: &C) -> (r: Vec<C>) {
        let x = coord.x();
        let y = coord.y();
        let r = vec![
            C::from_2d(x - 1, y - 1),
            C::from_2d(x, y - 1),
            C::from_2d(x - 1, y),
            C::from_2d(x + 1, y),
            C::from_2d(x - 1, y + 1),
            C::from_2d(x, y + 1),
        ];
        r
    }

    fn neighbors_count(&self) -> (r: usize) {
        6
    }
}

} // verus!
