use cellular::{
    Cell, CellRepr, CellState, GridCoord, GridRepr, HexagonalNhood, MooreNhood, SquareGrid,
    StateValue, VonNeumannNhood, XorCell,
};

fn snapshot_of(rows: i32, cols: i32, alive: &[bool]) -> GridRepr {
    let mut repr = GridRepr::new(rows, cols);
    for (i, a) in alive.iter().enumerate() {
        let i = i as i32;
        let coord = GridCoord { x: i % cols, y: i / cols };
        repr.cells.push(CellRepr::new(coord, CellState::new(vec![StateValue::Flag(*a)])));
    }
    repr
}

fn alive_of(cells: &Vec<XorCell>) -> Vec<bool> {
    cells.iter().map(|c| c.is_alive()).collect()
}

#[test]
fn von_neumann_table_center_and_corner() {
    let grid: SquareGrid<XorCell, VonNeumannNhood> = SquareGrid::new(3, 3, VonNeumannNhood::new());
    let table = grid.neighbor_table();
    assert_eq!(table.len(), 9);
    assert_eq!(table[4], vec![Some(1), Some(3), Some(5), Some(7)]);
    assert_eq!(table[0], vec![None, None, Some(1), Some(3)]);
    assert_eq!(table[0].iter().filter(|e| e.is_some()).count(), 2);
    assert_eq!(table[8], vec![Some(5), Some(7), None, None]);
}

#[test]
fn hexagonal_table_center() {
    let grid: SquareGrid<XorCell, HexagonalNhood> = SquareGrid::new(3, 3, HexagonalNhood::new());
    let table = grid.neighbor_table();
    assert_eq!(table[4], vec![Some(0), Some(1), Some(3), Some(5), Some(6), Some(7)]);
    assert_eq!(table[0], vec![None, None, None, Some(1), None, Some(3)]);
    for row in table.iter() {
        assert_eq!(row.len(), 6);
    }
}

#[test]
fn moore_table_rectangular() {
    let grid: SquareGrid<XorCell, MooreNhood> = SquareGrid::new(2, 3, MooreNhood::new());
    let table = grid.neighbor_table();
    assert_eq!(table.len(), 6);
    // (2, 1) is offset 5.
    assert_eq!(table[5], vec![Some(1), Some(2), None, Some(4), None, None, None, None]);
}

#[test]
fn new_grid_snapshot_mirrors_cells() {
    let grid: SquareGrid<XorCell, VonNeumannNhood> = SquareGrid::new(2, 3, VonNeumannNhood::new());
    assert_eq!(grid.rows(), 2);
    assert_eq!(grid.cols(), 3);
    let repr = grid.repr();
    assert_eq!(repr.rows, 2);
    assert_eq!(repr.cols, 3);
    assert_eq!(repr.cells.len(), 6);
    assert_eq!(repr.cells[4].coord, GridCoord { x: 1, y: 1 });
    for (i, c) in repr.cells.iter().enumerate() {
        assert_eq!(c.state.fields, vec![StateValue::Flag(false)]);
        assert_eq!(grid.cells()[i].coord(), c.coord);
    }
}

#[test]
fn step_reads_previous_generation_only() {
    let mut grid: SquareGrid<XorCell, VonNeumannNhood> =
        SquareGrid::new(1, 3, VonNeumannNhood::new());
    grid.from_repr(&snapshot_of(1, 3, &[true, false, false]));
    grid.step();
    // An in-place update would let cell 1 see cell 0 already dead.
    assert_eq!(alive_of(grid.cells()), vec![false, true, false]);
    assert_eq!(alive_of(grid.old_cells()), vec![true, false, false]);
    grid.step();
    assert_eq!(alive_of(grid.cells()), vec![true, false, true]);
    assert_eq!(grid.repr(), &snapshot_of(1, 3, &[true, false, true]));
}

#[test]
fn round_trip_into_fresh_grid() {
    let mut a: SquareGrid<XorCell, HexagonalNhood> = SquareGrid::new(3, 4, HexagonalNhood::new());
    a.from_repr(&snapshot_of(
        3,
        4,
        &[true, false, false, true, false, true, true, false, false, false, true, false],
    ));
    a.run_times(3);
    let exported = a.repr().clone();
    let mut b: SquareGrid<XorCell, HexagonalNhood> = SquareGrid::new(3, 4, HexagonalNhood::new());
    b.from_repr(&exported);
    assert_eq!(b.cells(), a.cells());
    assert_eq!(b.repr(), a.repr());
}

#[test]
fn run_twice_from_same_snapshot_is_deterministic() {
    let initial = snapshot_of(3, 3, &[true, false, true, false, true, false, false, false, true]);
    let mut grid: SquareGrid<XorCell, MooreNhood> = SquareGrid::new(3, 3, MooreNhood::new());
    grid.from_repr(&initial);
    grid.run_times(4);
    let first = grid.repr().clone();
    grid.from_repr(&initial);
    grid.run_times(4);
    assert_eq!(grid.repr(), &first);

    let mut other: SquareGrid<XorCell, MooreNhood> = SquareGrid::new(3, 3, MooreNhood::new());
    other.from_repr(&initial);
    other.run_times(4);
    assert_eq!(other.repr(), &first);
}

#[test]
fn one_by_one_grid_has_no_neighbors() {
    let mut grid: SquareGrid<XorCell, HexagonalNhood> = SquareGrid::new(1, 1, HexagonalNhood::new());
    assert_eq!(grid.neighbor_table()[0], vec![None; 6]);
    grid.from_repr(&snapshot_of(1, 1, &[true]));
    grid.step();
    assert_eq!(alive_of(grid.cells()), vec![false]);

    let mut moore: SquareGrid<XorCell, MooreNhood> = SquareGrid::new(1, 1, MooreNhood::new());
    assert_eq!(moore.neighbor_table()[0], vec![None; 8]);
    moore.step();
    assert_eq!(alive_of(moore.cells()), vec![false]);
}

#[test]
fn two_by_two_grid_edges() {
    let mut grid: SquareGrid<XorCell, VonNeumannNhood> =
        SquareGrid::new(2, 2, VonNeumannNhood::new());
    assert_eq!(grid.neighbor_table()[0], vec![None, None, Some(1), Some(2)]);
    assert_eq!(grid.neighbor_table()[3], vec![Some(1), Some(2), None, None]);
    grid.from_repr(&snapshot_of(2, 2, &[true, false, false, false]));
    grid.step();
    assert_eq!(alive_of(grid.cells()), vec![false, true, true, false]);
}

#[test]
fn partial_snapshot_overwrites_named_cells_only() {
    let mut grid: SquareGrid<XorCell, VonNeumannNhood> =
        SquareGrid::new(2, 2, VonNeumannNhood::new());
    let mut repr = GridRepr::new(2, 2);
    repr.cells.push(CellRepr::new(
        GridCoord { x: 1, y: 1 },
        CellState::new(vec![StateValue::Flag(true)]),
    ));
    grid.from_repr(&repr);
    assert_eq!(alive_of(grid.cells()), vec![false, false, false, true]);
    assert_eq!(grid.repr().cells[3].state, CellState::new(vec![StateValue::Flag(true)]));
}

#[test]
fn xor_cell_reads_unknown_state_as_dead() {
    let mut cell = XorCell::new(GridCoord { x: 2, y: 0 }, true);
    cell.from_repr(&CellState::new(vec![StateValue::Int(1)]));
    assert!(!cell.is_alive());
    cell.from_repr(&CellState::new(vec![StateValue::Flag(true)]));
    assert!(cell.is_alive());
    cell.from_repr(&CellState::empty());
    assert!(!cell.is_alive());
    assert_eq!(cell.coord(), GridCoord { x: 2, y: 0 });
}

#[test]
fn xor_cell_step_counts_live_neighbors() {
    let cell = XorCell::with_coord(&GridCoord { x: 0, y: 0 });
    assert!(!cell.is_alive());
    let a = XorCell::new(GridCoord { x: 1, y: 0 }, true);
    let b = XorCell::new(GridCoord { x: 0, y: 1 }, true);
    let d = XorCell::new(GridCoord { x: 1, y: 1 }, false);
    assert!(!cell.step(&vec![Some(&a), None, Some(&b), Some(&d)]).is_alive());
    assert!(cell.step(&vec![Some(&a), None, None, Some(&d)]).is_alive());
    assert_eq!(cell.repr(), CellState::new(vec![StateValue::Flag(false)]));
}

#[test]
fn xor_cell_set_coord_keeps_state() {
    let mut cell = XorCell::new(GridCoord { x: 0, y: 0 }, true);
    cell.set_coord(&(4, 5));
    assert_eq!(cell.coord(), GridCoord { x: 4, y: 5 });
    assert!(cell.is_alive());
}
