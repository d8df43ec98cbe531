use vstd::prelude::*;
use crate::cell::{Cell, deref_neighbors};
use crate::coord::{Coord, GridCoord, coord_of, in_grid, linear_offset, lemma_coord_of_offset, lemma_offset_of_coord};
use crate::nhood::Nhood;
use crate::repr::{CellRepr, CellState, GridRepr, StateValue};

verus! {

/// The neighbour-table entry for a candidate coordinate: its offset when it
/// lies in the grid, `None` otherwise.
pub open spec fn table_entry(p: (int, int), rows: int, cols: int) -> Option<usize> {
    if in_grid(p, rows, cols) {
        Some(linear_offset(p, cols) as usize)
    } else {
        None
    }
}

/// The neighbour-table row of the cell at offset `i`.
pub open spec fn neighbor_row<N: Nhood>(nhood: N, rows: int, cols: int, i: int) -> Seq<
    Option<usize>,
> {
    Seq::new(
        nhood.spec_count(),
        |k: int| table_entry(nhood.spec_neighbors(coord_of(i, cols))[k], rows, cols),
    )
}

/// The whole neighbour table of a `rows` by `cols` grid.
pub open spec fn neighbor_table<N: Nhood>(nhood: N, rows: int, cols: int) -> Seq<
    Seq<Option<usize>>,
> {
    Seq::new((rows * cols) as nat, |i: int| neighbor_row(nhood, rows, cols, i))
}

/// The cells that a table row designates, `None` where the row has none.
pub open spec fn neighbor_cells<C>(cells: Seq<C>, row: Seq<Option<usize>>) -> Seq<Option<C>> {
    row.map_values(
        |o: Option<usize>|
            match o {
                Some(j) => Some(cells[j as int]),
                None => None,
            },
    )
}

/// One synchronous generation: every cell steps on the previous values of
/// its neighbours.
pub open spec fn next_generation<C: Cell, N: Nhood>(
    cells: Seq<C>,
    nhood: N,
    rows: int,
    cols: int,
) -> Seq<C> {
    Seq::new(
        cells.len(),
        |i: int| cells[i].spec_step(neighbor_cells(cells, neighbor_row(nhood, rows, cols, i))),
    )
}

/// `n` generations in a row.
pub open spec fn generations<C: Cell, N: Nhood>(
    cells: Seq<C>,
    nhood: N,
    rows: int,
    cols: int,
    n: nat,
) -> Seq<C>
    decreases n,
{
    if n == 0 {
        cells
    } else {
        next_generation(generations(cells, nhood, rows, cols, (n - 1) as nat), nhood, rows, cols)
    }
}

/// The cells of a fresh grid: each built at its own coordinate.
pub open spec fn initial_cells<C: Cell>(rows: int, cols: int) -> Seq<C> {
    Seq::new((rows * cols) as nat, |i: int| C::spec_with_coord(coord_of(i, cols)))
}

/// The snapshot of a sequence of cells stored row-major in `cols` columns.
pub open spec fn snapshot<C: Cell>(cells: Seq<C>, cols: int) -> Seq<((int, int), Seq<StateValue>)> {
    Seq::new(cells.len(), |i: int| (coord_of(i, cols), cells[i].spec_repr()))
}

/// The cells after importing the snapshots `r` one after the other.
pub open spec fn import_cells<C: Cell>(
    cells: Seq<C>,
    r: Seq<((int, int), Seq<StateValue>)>,
    cols: int,
) -> Seq<C>
    decreases r.len(),
{
    if r.len() == 0 {
        cells
    } else {
        let prev = import_cells(cells, r.drop_last(), cols);
        let o = linear_offset(r.last().0, cols);
        prev.update(o, prev[o].spec_from_repr(r.last().1))
    }
}

/// Whether each cell stands at the coordinate of its own offset.
pub open spec fn cells_in_place<C: Cell>(cells: Seq<C>, cols: int) -> bool {
    forall|i: int| 0 <= i < cells.len() ==> #[trigger] cells[i].spec_coord() == coord_of(i, cols)
}

/// Every entry of a table row designates a cell of the grid.
pub proof fn lemma_row_in_bounds<N: Nhood>(nhood: N, rows: int, cols: int, i: int)
    requires
        0 < rows,
        0 < cols,
    ensures
        forall|k: int|
            0 <= k < neighbor_row(nhood, rows, cols, i).len() ==> match #[trigger] neighbor_row(
                nhood,
                rows,
                cols,
                i,
            )[k] {
                Some(j) => j < rows * cols,
                None => true,
            },
{
    let row = neighbor_row(nhood, rows, cols, i);
    assert forall|k: int| 0 <= k < row.len() implies match #[trigger] row[k] {
        Some(j) => j < rows * cols,
        None => true,
    } by {
        let p = nhood.spec_neighbors(coord_of(i, cols))[k];
        if in_grid(p, rows, cols) {
            lemma_offset_of_coord(p, rows, cols);
        }
    }
}

/// Refreshing entry `o` of a snapshot that mirrors `cells`, keeping its
/// coordinate and taking the state of a new cell `c`, gives the snapshot of
/// `cells` with `c` at offset `o`.
proof fn lemma_snapshot_set<C: Cell>(
    before: Seq<CellRepr>,
    cells: Seq<C>,
    cols: int,
    o: int,
    cr: CellRepr,
    c: C,
)
    requires
        before.map_values(|x: CellRepr| x@) == snapshot(cells, cols),
        0 <= o < cells.len(),
        cr.coord.pos() == before[o].coord.pos(),
        cr.state@ == c.spec_repr(),
    ensures
        before.update(o, cr).map_values(|x: CellRepr| x@) == snapshot(cells.update(o, c), cols),
{
    let bv = before.map_values(|x: CellRepr| x@);
    let av = before.update(o, cr).map_values(|x: CellRepr| x@);
    let expected = snapshot(cells.update(o, c), cols);
    assert(bv.len() == before.len());
    assert(bv[o] == before[o]@);
    assert forall|j: int| 0 <= j < cells.len() implies #[trigger] av[j] == expected[j] by {
        if j != o {
            assert(bv[j] == before[j]@);
        }
    }
    assert(av =~= expected);
}

/// Whether a snapshot has one entry per cell of a `rows` by `cols` grid,
/// each at the coordinate of its own offset, as a grid's own snapshot has.
pub open spec fn full_snapshot(r: Seq<((int, int), Seq<StateValue>)>, rows: int, cols: int) -> bool {
    &&& r.len() == rows * cols
    &&& forall|i: int| 0 <= i < r.len() ==> #[trigger] r[i].0 == coord_of(i, cols)
}

/// Importing the first `k` entries of a full snapshot overwrites exactly
/// the first `k` cells, each from its own entry.
proof fn lemma_import_in_order<C: Cell>(
    b: Seq<C>,
    r: Seq<((int, int), Seq<StateValue>)>,
    rows: int,
    cols: int,
    k: int,
)
    requires
        0 < rows,
        0 < cols,
        b.len() == rows * cols,
        full_snapshot(r, rows, cols),
        0 <= k <= r.len(),
    ensures
        import_cells(b, r.take(k), cols) == Seq::new(
            k as nat,
            |i: int| b[i].spec_from_repr(r[i].1),
        ) + b.skip(k),
    decreases k,
{
    let f = |i: int| b[i].spec_from_repr(r[i].1);
    if k == 0 {
        assert(Seq::new(0, f) + b.skip(0) =~= b);
    } else {
        lemma_import_in_order(b, r, rows, cols, k - 1);
        assert(r.take(k).drop_last() =~= r.take(k - 1));
        let prev = Seq::new((k - 1) as nat, f) + b.skip(k - 1);
        lemma_coord_of_offset(k - 1, rows, cols);
        assert(r.take(k).last() == r[k - 1]);
        assert(prev[k - 1] == b[k - 1]);
        assert(prev.update(k - 1, f(k - 1)) =~= Seq::new(k as nat, f) + b.skip(k));
    }
}

/// Importing a full snapshot into cells that stand in place gives, at each
/// offset, the cell rebuilt from its own entry.
proof fn lemma_import_full<C: Cell>(
    b: Seq<C>,
    r: Seq<((int, int), Seq<StateValue>)>,
    rows: int,
    cols: int,
)
    requires
        0 < rows,
        0 < cols,
        b.len() == rows * cols,
        full_snapshot(r, rows, cols),
    ensures
        import_cells(b, r, cols) == Seq::new(
            (rows * cols) as nat,
            |i: int| b[i].spec_from_repr(r[i].1),
        ),
{
    let n = rows * cols;
    lemma_import_in_order(b, r, rows, cols, n);
    assert(r.take(n) =~= r);
    assert(Seq::new(n as nat, |i: int| b[i].spec_from_repr(r[i].1)) + b.skip(n) =~= Seq::new(
        n as nat,
        |i: int| b[i].spec_from_repr(r[i].1),
    ));
}

/// A rectangular grid of `rows` by `cols` cells with a neighbourhood
/// topology, advanced one synchronous generation at a time.
pub struct SquareGrid<C: Cell, N: Nhood> {
    cells: Vec<C>,
    old_cells: Vec<C>,
    nhood: N,
    neighbors: Vec<Vec<Option<usize>>>,
    repr: GridRepr,
    rows: i32,
    cols: i32,
}

impl<C: Cell, N: Nhood> SquareGrid<C, N> {
    pub closed spec fn spec_cells(&self) -> Seq<C> {
        self.cells@
    }

    pub closed spec fn spec_old_cells(&self) -> Seq<C> {
        self.old_cells@
    }

    pub closed spec fn spec_nhood(&self) -> N {
        self.nhood
    }

    pub closed spec fn spec_rows(&self) -> int {
        self.rows as int
    }

    pub closed spec fn spec_cols(&self) -> int {
        self.cols as int
    }

    pub closed spec fn spec_table(&self) -> Seq<Seq<Option<usize>>> {
        self.neighbors@.map_values(|r: Vec<Option<usize>>| r@)
    }

    pub closed spec fn spec_repr(&self) -> GridRepr {
        self.repr
    }

    /// The grid's invariant: its dimensions fit, its table is the one that
    /// the topology gives, every cell stands at its own coordinate, and the
    /// snapshot mirrors the cells.
    pub closed spec fn wf(&self) -> bool {
        &&& 0 < self.rows
        &&& 0 < self.cols
        &&& self.rows * self.cols <= i32::MAX
        &&& self.cells@.len() == self.rows * self.cols
        &&& cells_in_place(self.cells@, self.cols as int)
        &&& self.spec_table() == neighbor_table(self.nhood, self.rows as int, self.cols as int)
        &&& self.repr.rows == self.rows
        &&& self.repr.cols == self.cols
        &&& self.repr.cells_view() == snapshot(self.cells@, self.cols as int)
    }

    /// What the invariant gives a user of the grid.
    pub proof fn lemma_wf(&self)
        requires
            self.wf(),
        ensures
            0 < self.spec_rows(),
            0 < self.spec_cols(),
            self.spec_rows() * self.spec_cols() <= i32::MAX,
            self.spec_cells().len() == self.spec_rows() * self.spec_cols(),
            cells_in_place(self.spec_cells(), self.spec_cols()),
            self.spec_table() == neighbor_table(
                self.spec_nhood(),
                self.spec_rows(),
                self.spec_cols(),
            ),
            self.spec_repr().rows == self.spec_rows(),
            self.spec_repr().cols == self.spec_cols(),
            self.spec_repr().cells_view() == snapshot(self.spec_cells(), self.spec_cols()),
    {
    }

    /// Advances the grid by one synchronous generation: every cell steps on
    /// the values its neighbours had before the call, and the snapshot is
    /// refreshed from the new cells.  The previous generation is kept.
    pub fn step(&mut self)
        requires
            old(self).wf(),
        ensures
            final(self).wf(),
            final(self).spec_cells() == next_generation(
                old(self).spec_cells(),
                old(self).spec_nhood(),
                old(self).spec_rows(),
                old(self).spec_cols(),
            ),
            final(self).spec_old_cells() == old(self).spec_cells(),
            final(self).spec_nhood() == old(self).spec_nhood(),
            final(self).spec_rows() == old(self).spec_rows(),
            final(self).spec_cols() == old(self).spec_cols(),
    {
        let ghost cells0 = self.cells@;
        let ghost rows = self.rows as int;
        let ghost cols = self.cols as int;
        let ghost expected = next_generation(cells0, self.nhood, rows, cols);
        assert(self.spec_table().len() == self.neighbors@.len());
        assert(self.repr.cells_view().len() == self.repr.cells@.len());
        let len = self.cells.len();
        let mut next: Vec<C> = Vec::with_capacity(len);
        let mut i: usize = 0;
        while i < len
            invariant
                self.cells@ == cells0,
                self.nhood == old(self).nhood,
                self.neighbors == old(self).neighbors,
                self.neighbors@.len() == len,
                self.repr.cells@.len() == len,
                self.rows == rows,
                self.cols == cols,
                0 < rows,
                0 < cols,
                rows * cols <= i32::MAX,
                len == rows * cols,
                cells0.len() == len,
                cells_in_place(cells0, cols),
                self.spec_table() == neighbor_table(self.nhood, rows, cols),
                expected == next_generation(cells0, self.nhood, rows, cols),
                self.repr.rows == rows,
                self.repr.cols == cols,
                i <= len,
                next@.len() == i,
                forall|j: int| 0 <= j < i ==> #[trigger] next@[j] == expected[j],
                self.repr.cells_view() == snapshot(next@ + cells0.subrange(i as int, len as int), cols),
            decreases len - i,
        {
            proof {
                lemma_row_in_bounds(self.nhood, rows, cols, i as int);
                assert(self.spec_table()[i as int] == self.neighbors@[i as int]@);
            }
            let new_cell = {
                let nb = Self::neighbors_iter(&self.cells, &self.neighbors[i]);
                self.cells[i].step(&nb)
            };
            proof {
                cells0[i as int].lemma_step_keeps_coord(
                    neighbor_cells(cells0, neighbor_row(self.nhood, rows, cols, i as int)),
                );
            }
            let coord = self.repr.cells[i].coord;
            let state = new_cell.repr();
            let ghost before = self.repr.cells@;
            let ghost before_all = next@ + cells0.subrange(i as int, len as int);
            let cr = CellRepr::new(coord, state);
            self.repr.cells.set(i, cr);
            next.push(new_cell);
            proof {
                lemma_snapshot_set(before, before_all, cols, i as int, cr, new_cell);
                assert(before_all.update(i as int, new_cell) =~= next@ + cells0.subrange(
                    i as int + 1,
                    len as int,
                ));
            }
            i = i + 1;
        }
        proof {
            assert(next@ =~= expected);
            assert(next@ + cells0.subrange(len as int, len as int) =~= next@);
            assert forall|j: int| 0 <= j < len implies #[trigger] next@[j].spec_coord() == coord_of(
                j,
                cols,
            ) by {
                cells0[j].lemma_step_keeps_coord(
                    neighbor_cells(cells0, neighbor_row(self.nhood, rows, cols, j)),
                );
            }
        }
        std::mem::swap(&mut self.cells, &mut next);
        self.old_cells = next;
    }

    /// Overwrites the cells named in a snapshot, in its order, from their
    /// recorded states, and refreshes the grid's own snapshot from them.
    pub fn from_repr(&mut self, repr: &GridRepr)
        requires
            old(self).wf(),
            repr.rows == old(self).spec_rows(),
            repr.cols == old(self).spec_cols(),
            forall|k: int|
                0 <= k < repr.cells@.len() ==> in_grid(
                    #[trigger] repr.cells@[k].coord.pos(),
                    old(self).spec_rows(),
                    old(self).spec_cols(),
                ),
        ensures
            final(self).wf(),
            final(self).spec_cells() == import_cells(
                old(self).spec_cells(),
                repr.cells_view(),
                old(self).spec_cols(),
            ),
            final(self).spec_old_cells() == old(self).spec_old_cells(),
            final(self).spec_nhood() == old(self).spec_nhood(),
            final(self).spec_rows() == old(self).spec_rows(),
            final(self).spec_cols() == old(self).spec_cols(),
    {
        let ghost cells0 = self.cells@;
        let ghost rows = self.rows as int;
        let ghost cols = self.cols as int;
        let ghost rv = repr.cells_view();
        assert(self.repr.cells_view().len() == self.repr.cells@.len());
        let mut k: usize = 0;
        while k < repr.cells.len()
            invariant
                0 < rows,
                0 < cols,
                rows * cols <= i32::MAX,
                self.rows == rows,
                self.cols == cols,
                self.nhood == old(self).nhood,
                self.neighbors == old(self).neighbors,
                self.old_cells == old(self).old_cells,
                self.spec_table() == neighbor_table(self.nhood, rows, cols),
                self.repr.rows == rows,
                self.repr.cols == cols,
                self.repr.cells@.len() == rows * cols,
                self.cells@.len() == rows * cols,
                cells_in_place(self.cells@, cols),
                self.repr.cells_view() == snapshot(self.cells@, cols),
                rv == repr.cells_view(),
                forall|m: int|
                    0 <= m < repr.cells@.len() ==> in_grid(
                        #[trigger] repr.cells@[m].coord.pos(),
                        rows,
                        cols,
                    ),
                k <= repr.cells@.len(),
                self.cells@ == import_cells(cells0, rv.take(k as int), cols),
            decreases repr.cells@.len() - k,
        {
            let cr = &repr.cells[k];
            let c = GridCoord::from_2d(cr.coord.x(), cr.coord.y());
            proof {
                lemma_offset_of_coord(c.pos(), rows, cols);
            }
            let offset = c.offset(self.cols);
            let ghost cells_before = self.cells@;
            self.cells[offset].from_repr(&cr.state);
            proof {
                cells_before[offset as int].lemma_from_repr_keeps_coord(cr.state@);
                assert(rv[k as int] == cr@);
                assert(rv.take(k as int + 1).drop_last() =~= rv.take(k as int));
                assert(self.cells@ =~= import_cells(cells0, rv.take(k as int + 1), cols));
            }
            let state = self.cells[offset].repr();
            let coord = self.repr.cells[offset].coord;
            let ghost before = self.repr.cells@;
            let new_cr = CellRepr::new(coord, state);
            self.repr.cells.set(offset, new_cr);
            proof {
                lemma_snapshot_set(before, cells_before, cols, offset as int, new_cr, self.cells@[offset as int]);
                assert(cells_before.update(offset as int, self.cells@[offset as int]) =~= self.cells@);
            }
            k = k + 1;
        }
        proof {
            assert(rv.take(k as int) =~= rv);
        }
    }

    /// Runs `n` generations, one after the other.
    pub fn run_times(&mut self, n: u32)
        requires
            old(self).wf(),
        ensures
            final(self).wf(),
            final(self).spec_cells() == generations(
                old(self).spec_cells(),
                old(self).spec_nhood(),
                old(self).spec_rows(),
                old(self).spec_cols(),
                n as nat,
            ),
            final(self).spec_nhood() == old(self).spec_nhood(),
            final(self).spec_rows() == old(self).spec_rows(),
            final(self).spec_cols() == old(self).spec_cols(),
    {
        let mut t: u32 = 0;
        while t < n
            invariant
                self.wf(),
                t <= n,
                self.spec_nhood() == old(self).spec_nhood(),
                self.spec_rows() == old(self).spec_rows(),
                self.spec_cols() == old(self).spec_cols(),
                self.spec_cells() == generations(
                    old(self).spec_cells(),
                    old(self).spec_nhood(),
                    old(self).spec_rows(),
                    old(self).spec_cols(),
                    t as nat,
                ),
            decreases n - t,
        {
            self.step();
            t = t + 1;
        }
    }

    /// The grid's snapshot, kept in step with its cells.
    pub fn repr(&self) -> (r: &GridRepr)
        requires
            self.wf(),
        ensures
            *r == self.spec_repr(),
            r.rows == self.spec_rows(),
            r.cols == self.spec_cols(),
            r.cells_view() == snapshot(self.spec_cells(), self.spec_cols()),
    {
        &self.repr
    }

    /// The current cells, in row-major order.
    pub fn cells(&self) -> (r: &Vec<C>)
        ensures
            r@ == self.spec_cells(),
    {
        &self.cells
    }

    /// The cells of the generation before the last step.
    pub fn old_cells(&self) -> (r: &Vec<C>)
        ensures
            r@ == self.spec_old_cells(),
    {
        &self.old_cells
    }

    /// The precomputed neighbour table: one row per cell, one entry per
    /// neighbour slot.
    pub fn neighbor_table(&self) -> (r: &Vec<Vec<Option<usize>>>)
        ensures
            r@.map_values(|row: Vec<Option<usize>>| row@) == self.spec_table(),
    {
        &self.neighbors
    }

    pub fn nhood(&self) -> (r: &N)
        ensures
            *r == self.spec_nhood(),
    {
        &self.nhood
    }

    pub fn rows(&self) -> (r: i32)
        ensures
            r == self.spec_rows(),
    {
        self.rows
    }

    pub fn cols(&self) -> (r: i32)
        ensures
            r == self.spec_cols(),
    {
        self.cols
    }

    /// Neighbour-table correctness: for an in-grid coordinate `p` and a
    /// neighbour slot `k`, the table row of `p` holds in slot `k` the offset
    /// of the `k`-th candidate neighbour of `p` when that neighbour lies in
    /// the grid, and `None` when it does not.
    pub proof fn lemma_neighbor_table(&self, p: (int, int), k: int)
        requires
            self.wf(),
            in_grid(p, self.spec_rows(), self.spec_cols()),
            0 <= k < self.spec_nhood().spec_count(),
        ensures
            ({
                let o = linear_offset(p, self.spec_cols());
                let q = self.spec_nhood().spec_neighbors(p)[k];
                &&& 0 <= o < self.spec_table().len()
                &&& self.spec_table()[o].len() == self.spec_nhood().spec_count()
                &&& in_grid(q, self.spec_rows(), self.spec_cols()) ==> self.spec_table()[o][k]
                    == Some(linear_offset(q, self.spec_cols()) as usize)
                &&& !in_grid(q, self.spec_rows(), self.spec_cols()) ==> self.spec_table()[o][k]
                    is None
            }),
    {
        lemma_offset_of_coord(p, self.rows as int, self.cols as int);
    }

    /// Round trip: importing the snapshot of a well-formed grid into any
    /// well-formed grid of the same shape (a freshly built one included)
    /// reproduces the first grid's cells exactly.
    pub proof fn lemma_round_trip(a: Self, b: Self)
        requires
            a.wf(),
            b.wf(),
            a.spec_rows() == b.spec_rows(),
            a.spec_cols() == b.spec_cols(),
        ensures
            full_snapshot(a.spec_repr().cells_view(), b.spec_rows(), b.spec_cols()),
            forall|k: int|
                0 <= k < a.spec_repr().cells@.len() ==> in_grid(
                    #[trigger] a.spec_repr().cells@[k].coord.pos(),
                    b.spec_rows(),
                    b.spec_cols(),
                ),
            import_cells(b.spec_cells(), a.spec_repr().cells_view(), b.spec_cols())
                == a.spec_cells(),
    {
        let rows = a.rows as int;
        let cols = a.cols as int;
        let rv = a.repr.cells_view();
        assert(rv.len() == a.repr.cells@.len());
        assert forall|k: int| 0 <= k < a.repr.cells@.len() implies in_grid(
            #[trigger] a.repr.cells@[k].coord.pos(),
            rows,
            cols,
        ) by {
            assert(rv[k] == a.repr.cells@[k]@);
            lemma_coord_of_offset(k, rows, cols);
        }
        lemma_import_full(b.cells@, rv, rows, cols);
        assert forall|i: int| 0 <= i < rows * cols implies #[trigger] b.cells@[i].spec_from_repr(
            rv[i].1,
        ) == a.cells@[i] by {
            C::lemma_repr_round_trip(a.cells@[i], b.cells@[i]);
        }
        assert(Seq::new((rows * cols) as nat, |i: int| b.cells@[i].spec_from_repr(rv[i].1))
            =~= a.cells@);
    }

    /// Determinism: two well-formed grids of the same shape and topology
    /// that import the same full snapshot and then run the same number of
    /// generations end with the same snapshot, whatever their cells held
    /// before the import.
    pub proof fn lemma_deterministic(g1: Self, g2: Self, r: GridRepr, n: nat)
        requires
            g1.wf(),
            g2.wf(),
            g1.spec_nhood() == g2.spec_nhood(),
            g1.spec_rows() == g2.spec_rows(),
            g1.spec_cols() == g2.spec_cols(),
            full_snapshot(r.cells_view(), g1.spec_rows(), g1.spec_cols()),
        ensures
            snapshot(
                generations(
                    import_cells(g1.spec_cells(), r.cells_view(), g1.spec_cols()),
                    g1.spec_nhood(),
                    g1.spec_rows(),
                    g1.spec_cols(),
                    n,
                ),
                g1.spec_cols(),
            ) == snapshot(
                generations(
                    import_cells(g2.spec_cells(), r.cells_view(), g2.spec_cols()),
                    g2.spec_nhood(),
                    g2.spec_rows(),
                    g2.spec_cols(),
                    n,
                ),
                g2.spec_cols(),
            ),
    {
        let rows = g1.rows as int;
        let cols = g1.cols as int;
        let rv = r.cells_view();
        lemma_import_full(g1.cells@, rv, rows, cols);
        lemma_import_full(g2.cells@, rv, rows, cols);
        assert forall|i: int| 0 <= i < rows * cols implies #[trigger] g1.cells@[i].spec_from_repr(
            rv[i].1,
        ) == g2.cells@[i].spec_from_repr(rv[i].1) by {
            C::lemma_from_repr_overwrites(g1.cells@[i], g2.cells@[i], rv[i].1);
        }
        assert(import_cells(g1.cells@, rv, cols) =~= import_cells(g2.cells@, rv, cols));
    }

    /// Builds a grid whose cells are each made at their own coordinate.
    pub fn new(rows: i32, cols: i32, nhood: N) -> (r: Self)
        requires
            0 < rows,
            0 < cols,
            rows * cols <= i32::MAX,
        ensures
            r.wf(),
            r.spec_rows() == rows,
            r.spec_cols() == cols,
            r.spec_nhood() == nhood,
            r.spec_cells() == initial_cells::<C>(rows as int, cols as int),
    {
        let len: usize = (rows * cols) as usize;
        let mut cells: Vec<C> = Vec::with_capacity(len);
        let mut offset: usize = 0;
        while offset < len
            invariant
                0 < cols,
                len == rows * cols,
                len <= i32::MAX,
                offset <= len,
                cells@.len() == offset,
                forall|i: int|
                    0 <= i < offset ==> #[trigger] cells@[i] == C::spec_with_coord(
                        coord_of(i, cols as int),
                    ) && cells@[i].spec_coord() == coord_of(i, cols as int),
            decreases len - offset,
        {
            let coord = GridCoord::from_offset(offset as i32, rows, cols);
            cells.push(C::with_coord(&coord));
            offset = offset + 1;
        }
        proof {
            assert(cells@ =~= initial_cells::<C>(rows as int, cols as int));
        }
        let mut grid = SquareGrid {
            cells,
            old_cells: Vec::new(),
            nhood,
            neighbors: Vec::with_capacity(len),
            repr: GridRepr::new(rows, cols),
            rows,
            cols,
        };
        grid.init_neighbors();
        grid.init_cell_reprs();
        grid
    }

    /// The table row of one cell: for each neighbour slot, the offset of the
    /// neighbour when it lies in the grid.
    fn neighbor_row_of(&self, offset: usize) -> (r: Vec<Option<usize>>)
        requires
            0 < self.rows,
            0 < self.cols,
            self.rows * self.cols <= i32::MAX,
            offset < self.rows * self.cols,
        ensures
            r@ == neighbor_row(self.nhood, self.rows as int, self.cols as int, offset as int),
    {
        let rows = self.rows;
        let cols = self.cols;
        proof {
            lemma_coord_of_offset(offset as int, rows as int, cols as int);
        }
        let coord = GridCoord::from_offset(offset as i32, rows, cols);
        let count = self.nhood.neighbors_count();
        let coords = self.nhood.neighbors(&coord);
        let ghost expected = neighbor_row(self.nhood, rows as int, cols as int, offset as int);
        let mut row: Vec<Option<usize>> = Vec::with_capacity(count);
        let mut k: usize = 0;
        while k < coords.len()
            invariant
                0 < rows,
                0 < cols,
                rows * cols <= i32::MAX,
                k <= coords@.len(),
                coords@.len() == expected.len(),
                expected == neighbor_row(self.nhood, rows as int, cols as int, offset as int),
                coord.pos() == coord_of(offset as int, cols as int),
                forall|j: int|
                    0 <= j < coords@.len() ==> #[trigger] coords@[j].pos()
                        == self.nhood.spec_neighbors(coord.pos())[j],
                row@ == expected.take(k as int),
            decreases coords@.len() - k,
        {
            let c = &coords[k];
            let x = c.x();
            let y = c.y();
            if x >= 0 && x < cols && y >= 0 && y < rows {
                proof {
                    lemma_offset_of_coord(c.pos(), rows as int, cols as int);
                }
                row.push(Some(c.offset(cols)));
            } else {
                row.push(None);
            }
            proof {
                assert(row@ =~= expected.take(k as int + 1));
            }
            k = k + 1;
        }
        proof {
            assert(row@ =~= expected);
        }
        row
    }

    /// References to the neighbours of one cell, read from `cells` through
    /// its table row.
    fn neighbors_iter<'b>(cells: &'b Vec<C>, row: &Vec<Option<usize>>) -> (r: Vec<Option<&'b C>>)
        requires
            forall|k: int|
                0 <= k < row@.len() ==> match #[trigger] row@[k] {
                    Some(j) => j < cells@.len(),
                    None => true,
                },
        ensures
            deref_neighbors(r@) == neighbor_cells(cells@, row@),
    {
        let mut r: Vec<Option<&'b C>> = Vec::with_capacity(row.len());
        let mut k: usize = 0;
        while k < row.len()
            invariant
                k <= row@.len(),
                forall|m: int|
                    0 <= m < row@.len() ==> match #[trigger] row@[m] {
                        Some(j) => j < cells@.len(),
                        None => true,
                    },
                deref_neighbors(r@) == neighbor_cells(cells@, row@.take(k as int)),
            decreases row@.len() - k,
        {
            let ghost before = r@;
            match row[k] {
                Some(j) => r.push(Some(&cells[j])),
                None => r.push(None),
            }
            proof {
                assert(r@ == before.push(r@.last()));
                assert(deref_neighbors(r@) =~= neighbor_cells(cells@, row@.take(k as int + 1))) by {
                    assert(deref_neighbors(before).len() == k);
                    let a = deref_neighbors(r@);
                    let b = neighbor_cells(cells@, row@.take(k as int + 1));
                    assert forall|m: int| 0 <= m < k + 1 implies a[m] == b[m] by {
                        if m < k {
                            assert(r@[m] == before[m]);
                            assert(deref_neighbors(before)[m] == a[m]);
                            assert(row@.take(k as int + 1)[m] == row@.take(k as int)[m]);
                        }
                    }
                }
            }
            k = k + 1;
        }
        proof {
            assert(row@.take(k as int) =~= row@);
        }
        r
    }

    /// Fills the neighbour table, one row per cell.
    fn init_neighbors(&mut self)
        requires
            0 < old(self).rows,
            0 < old(self).cols,
            old(self).rows * old(self).cols <= i32::MAX,
            old(self).cells@.len() == old(self).rows * old(self).cols,
            old(self).neighbors@.len() == 0,
        ensures
            final(self).spec_table() == neighbor_table(
                old(self).nhood,
                old(self).rows as int,
                old(self).cols as int,
            ),
            final(self).cells == old(self).cells,
            final(self).old_cells == old(self).old_cells,
            final(self).nhood == old(self).nhood,
            final(self).repr == old(self).repr,
            final(self).rows == old(self).rows,
            final(self).cols == old(self).cols,
    {
        let len = self.cells.len();
        let mut offset: usize = 0;
        while offset < len
            invariant
                0 < self.rows,
                0 < self.cols,
                self.rows * self.cols <= i32::MAX,
                len == self.rows * self.cols,
                offset <= len,
                self.cells == old(self).cells,
                self.old_cells == old(self).old_cells,
                self.nhood == old(self).nhood,
                self.repr == old(self).repr,
                self.rows == old(self).rows,
                self.cols == old(self).cols,
                self.neighbors@.len() == offset,
                forall|i: int|
                    0 <= i < offset ==> #[trigger] self.neighbors@[i]@ == neighbor_row(
                        self.nhood,
                        self.rows as int,
                        self.cols as int,
                        i,
                    ),
            decreases len - offset,
        {
            let row = self.neighbor_row_of(offset);
            self.neighbors.push(row);
            offset = offset + 1;
        }
        proof {
            assert(self.spec_table() =~= neighbor_table(
                self.nhood,
                self.rows as int,
                self.cols as int,
            ));
        }
    }

    /// Fills the snapshot with the state of every cell.
    fn init_cell_reprs(&mut self)
        requires
            0 < old(self).cols,
            old(self).cells@.len() <= i32::MAX,
            old(self).repr.cells@.len() == 0,
        ensures
            final(self).repr.cells_view() == snapshot(old(self).cells@, old(self).cols as int),
            final(self).repr.rows == old(self).repr.rows,
            final(self).repr.cols == old(self).repr.cols,
            final(self).cells == old(self).cells,
            final(self).old_cells == old(self).old_cells,
            final(self).nhood == old(self).nhood,
            final(self).neighbors == old(self).neighbors,
            final(self).rows == old(self).rows,
            final(self).cols == old(self).cols,
    {
        let len = self.cells.len();
        let mut offset: usize = 0;
        while offset < len
            invariant
                0 < self.cols,
                len == self.cells@.len(),
                len <= i32::MAX,
                offset <= len,
                self.cells == old(self).cells,
                self.old_cells == old(self).old_cells,
                self.nhood == old(self).nhood,
                self.neighbors == old(self).neighbors,
                self.rows == old(self).rows,
                self.cols == old(self).cols,
                self.repr.rows == old(self).repr.rows,
                self.repr.cols == old(self).repr.cols,
                self.repr.cells_view() == snapshot(self.cells@, self.cols as int).take(
                    offset as int,
                ),
            decreases len - offset,
        {
            let coord = GridCoord::from_offset(offset as i32, self.rows, self.cols);
            let state = self.cells[offset].repr();
            let ghost before = self.repr.cells@;
            let ghost before_view = self.repr.cells_view();
            assert(before_view.len() == offset);
            assert(before.len() == offset);
            let cr = CellRepr::new(coord, state);
            self.repr.cells.push(cr);
            proof {
                let expected = snapshot(self.cells@, self.cols as int);
                assert(self.repr.cells@ == before.push(cr));
                assert(self.repr.cells_view().len() == offset + 1);
                assert forall|i: int| 0 <= i < offset + 1 implies #[trigger] self.repr.cells_view()[i]
                    == expected[i] by {
                    assert(self.repr.cells_view()[i] == self.repr.cells@[i]@);
                    if i < offset {
                        assert(self.repr.cells@[i] == before[i]);
                        assert(before_view[i] == before[i]@);
                    } else {
                        assert(self.repr.cells@[i] == cr);
                    }
                }
                assert(self.repr.cells_view() =~= expected.take(offset as int + 1));
            }
            offset = offset + 1;
        }
        proof {
            assert(self.repr.cells_view() =~= snapshot(self.cells@, self.cols as int));
        }
    }
}

} // verus!
