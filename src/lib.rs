//! A generic cellular-automaton engine: coordinates, neighbourhood
//! topologies, cells with a transition rule, and a rectangular grid that
//! advances all cells in synchronous generations.
pub mod coord;
pub mod nhood;
pub mod repr;
pub mod cell;
pub mod grid;

pub use crate::cell::{Cell, XorCell};
pub use crate::coord::{Coord, GridCoord};
pub use crate::grid::SquareGrid;
pub use crate::nhood::{HexagonalNhood, MooreNhood, Nhood, VonNeumannNhood};
pub use crate::repr::{CellRepr, CellState, GridRepr, StateValue};
