use vstd::prelude::*;
use crate::coord::{Coord, GridCoord};

verus! {

/// One tagged field of a cell's snapshot.
#[derive(Clone, Copy, Debug, PartialEq, Eq, Structural)]
pub enum StateValue {
    Flag(bool),
    Int(i64),
}

/// The opaque state of one cell: a schema-less list of tagged fields whose
/// meaning belongs to the cell type that wrote it.
#[derive(Clone, Debug, PartialEq, Eq)]
pub struct CellState {
    pub fields: Vec<StateValue>,
}

impl View for CellState {
    type V = Seq<StateValue>;

    open spec fn view(&self) -> Seq<StateValue> {
        self.fields@
    }
}

impl CellState {
    pub fn new(fields: Vec<StateValue>) -> (r: Self)
        ensures
            r@ == fields@,
    {
        CellState { fields }
    }

    pub fn empty() -> (r: Self)
        ensures
            r@ == Seq::<StateValue>::empty(),
    {
        CellState { fields: Vec::new() }
    }
}

/// Snapshot of one cell: where it is and what it holds.
#[derive(Clone, Debug, PartialEq, Eq)]
pub struct CellRepr {
    pub coord: GridCoord,
    pub state: CellState,
}

impl View for CellRepr {
    type V = ((int, int), Seq<StateValue>);

    open spec fn view(&self) -> ((int, int), Seq<StateValue>) {
        (self.coord.pos(), self.state@)
    }
}

impl CellRepr {
    pub fn new(coord: GridCoord, state: CellState) -> (r: Self)
        ensures
            r.coord == coord,
            r.state@ == state@,
    {
        CellRepr { coord, state }
    }
}

/// Snapshot of a whole grid, independent of the concrete cell type.
#[derive(Clone, Debug, PartialEq, Eq)]
pub struct GridRepr {
    pub rows: i32,
    pub cols: i32,
    pub cells: Vec<CellRepr>,
}

impl GridRepr {
    /// The cell snapshots, in storage order.
    pub open spec fn cells_view(&self) -> Seq<((int, int), Seq<StateValue>)> {
        self.cells@.map_values(|c: CellRepr| c@)
    }

    pub fn new(rows: i32, cols: i32) -> (r: Self)
        ensures
            r.rows == rows,
            r.cols == cols,
            r.cells@.len() == 0,
    {
        GridRepr { rows, cols, cells: Vec::new() }
    }
}

} // verus!
