use vstd::prelude::*;
use crate::coord::{Coord, GridCoord};
use crate::repr::{CellState, StateValue};

verus! {

/// Replaces each neighbour reference by the value it refers to.
pub open spec fn deref_neighbors<T>(n: Seq<Option<&T>>) -> Seq<Option<T>> {
    n.map_values(|o: Option<&T>| match o {
        Some(c) => Some(*c),
        None => None,
    })
}

/// The state of one lattice site and its transition rule.
///
/// A cell is a value: the rule produces a whole new cell each generation from
/// the cell and its neighbours, in the slot order of the grid's
/// neighbourhood.  A `None` neighbour lies outside the grid; what that means
/// (reflection, absorption, nothing) is the rule's own decision.
pub trait Cell: Sized {
    /// The coordinate the cell belongs to.
    spec fn spec_coord(&self) -> (int, int);

    /// The cell that `with_coord` builds at `p`.
    spec fn spec_with_coord(p: (int, int)) -> Self;

    /// The next-generation value of the cell.
    spec fn spec_step(&self, neighbors: Seq<Option<Self>>) -> Self;

    /// The snapshot of the cell's state.
    spec fn spec_repr(&self) -> Seq<StateValue>;

    /// The cell after its state is overwritten from a snapshot.
    spec fn spec_from_repr(&self, state: Seq<StateValue>) -> Self;

    /// A transition keeps the cell where it is.
    proof fn lemma_step_keeps_coord(&self, neighbors: Seq<Option<Self>>)
        ensures
            self.spec_step(neighbors).spec_coord() == self.spec_coord(),
    ;

    /// Importing a snapshot keeps the cell where it is.
    proof fn lemma_from_repr_keeps_coord(&self, state: Seq<StateValue>)
        ensures
            self.spec_from_repr(state).spec_coord() == self.spec_coord(),
    ;

    /// Importing a snapshot overwrites the whole state: the result depends on
    /// the coordinate and the snapshot alone.
    proof fn lemma_from_repr_overwrites(a: Self, b: Self, state: Seq<StateValue>)
        requires
            a.spec_coord() == b.spec_coord(),
        ensures
            a.spec_from_repr(state) == b.spec_from_repr(state),
    ;

    /// Importing the snapshot of a cell into a cell at the same coordinate
    /// reproduces that cell.
    proof fn lemma_repr_round_trip(a: Self, b: Self)
        requires
            a.spec_coord() == b.spec_coord(),
        ensures
            b.spec_from_repr(a.spec_repr()) == a,
    ;

    fn with_coord<C: Coord>(coord: &C) -> (r: Self)
        ensures
            r == Self::spec_with_coord(coord.pos()),
            r.spec_coord() == coord.pos(),
    ;

    fn coord(&self) -> (r: GridCoord)
        ensures
            r.pos() == self.spec_coord(),
    ;

    /// Moves the cell to another coordinate; its state is kept.
    fn set_coord<C: Coord>(&mut self, coord: &C)
        ensures
            final(self).spec_coord() == coord.pos(),
            final(self).spec_repr() == old(self).spec_repr(),
    ;

    fn step(&self, neighbors: &Vec<Option<&Self>>) -> (r: Self)
        ensures
            r == self.spec_step(deref_neighbors(neighbors@)),
    ;

    fn repr(&self) -> (r: CellState)
        ensures
            r@ == self.spec_repr(),
    ;

    fn from_repr(&mut self, state: &CellState)
        ensures
            *final(self) == old(self).spec_from_repr(state@),
    ;
}

/// Whether a neighbour slot holds a live cell.
pub open spec fn alive_at(n: Option<XorCell>) -> bool {
    match n {
        Some(c) => c.alive,
        None => false,
    }
}

/// The number of live cells among the neighbours.
pub open spec fn live_count(n: Seq<Option<XorCell>>) -> nat
    decreases n.len(),
{
    if n.len() == 0 {
        0
    } else {
        live_count(n.drop_last()) + if alive_at(n.last()) {
            1nat
        } else {
            0nat
        }
    }
}

/// A two-state cell whose next state is the parity of its live neighbours.
/// A neighbour outside the grid counts as dead.
#[derive(Clone, Copy, Debug, PartialEq, Eq, Structural)]
pub struct XorCell {
    pub coord: GridCoord,
    pub alive: bool,
}

impl XorCell {
    pub fn new(coord: GridCoord, alive: bool) -> (r: Self)
        ensures
            r.coord == coord,
            r.alive == alive,
    {
        XorCell { coord, alive }
    }

    pub fn is_alive(&self) -> (r: bool)
        ensures
            r == self.alive,
    {
        self.alive
    }
}

impl Cell for XorCell {
    open spec fn spec_coord(&self) -> (int, int) {
        self.coord.pos()
    }

    open spec fn spec_with_coord(p: (int, int)) -> Self {
        XorCell { coord: GridCoord { x: p.0 as i32, y: p.1 as i32 }, alive: false }
    }

    open spec fn spec_step(&self, neighbors: Seq<Option<Self>>) -> Self {
        XorCell { coord: self.coord, alive: live_count(neighbors) % 2 == 1 }
    }

    open spec fn spec_repr(&self) -> Seq<StateValue> {
        seq![StateValue::Flag(self.alive)]
    }

    open spec fn spec_from_repr(&self, state: Seq<StateValue>) -> Self {
        XorCell {
            coord: self.coord,
            alive: state.len() > 0 && state[0] == StateValue::Flag(true),
        }
    }

    proof fn lemma_step_keeps_coord(&self, neighbors: Seq<Option<Self>>) {
    }

    proof fn lemma_from_repr_keeps_coord(&self, state: Seq<StateValue>) {
    }

    proof fn lemma_from_repr_overwrites(a: Self, b: Self, state: Seq<StateValue>) {
    }

    proof fn lemma_repr_round_trip(a: Self, b: Self) {
    }

    fn with_coord<C: Coord>(coord: &C) -> (r: Self) {
        XorCell { coord: GridCoord { x: coord.x(), y: coord.y() }, alive: false }
    }

    fn coord(&self) -> (r: GridCoord) {
        self.coord
    }

    fn set_coord<C: Coord>(&mut self, coord: &C) {
        self.coord = GridCoord { x: coord.x(), y: coord.y() };
    }

    fn step(&self, neighbors: &Vec<Option<&Self>>) -> (r: Self) {
        let ghost n = deref_neighbors(neighbors@);
        let mut parity = false;
        let mut k: usize = 0;
        while k < neighbors.len()
            invariant
                k <= neighbors@.len(),
                n == deref_neighbors(neighbors@),
                parity == (live_count(n.take(k as int)) % 2 == 1),
            decreases neighbors@.len() - k,
        {
            let live = match neighbors[k] {
                Some(c) => c.alive,
                None => false,
            };
            proof {
                assert(n.take(k as int + 1).drop_last() =~= n.take(k as int));
            }
            if live {
                parity = !parity;
            }
            k = k + 1;
        }
        proof {
            assert(n.take(k as int) =~= n);
        }
        XorCell { coord: self.coord, alive: parity }
    }

    fn repr(&self) -> (r: CellState) {
        CellState::new(vec![StateValue::Flag(self.alive)])
    }

    fn from_repr(&mut self, state: &CellState) {
        let alive = state.fields.len() > 0 && match state.fields[0] {
            StateValue::Flag(b) => b,
            StateValue::Int(_) => false,
        };
        self.alive = alive;
    }
}

} // verus!
