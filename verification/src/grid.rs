//! The executable simulation engine: cell statuses, the grid, the neighbor
//! count, and the synchronous generational update.

use vstd::prelude::*;

use crate::model::{alive, live_neighbors, next_alive, rule, step};

verus! {

/// The status of one cell. Every cell is always exactly one of these two;
/// there is no third state.
#[derive(Clone, Copy, Debug, PartialEq, Eq, Structural)]
pub enum Status {
    Alive,
    Dead,
}

/// The transition rule for one cell, as a pure function of its current status
/// and its live-neighbor count: an alive cell dies of underpopulation (fewer
/// than 2) or overpopulation (more than 3) and survives otherwise; a dead cell
/// is born with exactly 3 live neighbors and stays dead otherwise.
pub fn next_status(s: Status, n: usize) -> (r: Status)
    ensures
        (r is Alive) == rule(s is Alive, n as int),
{
    match s {
        Status::Alive => {
            if n < 2 {
                Status::Dead
            } else if n <= 3 {
                Status::Alive
            } else {
                Status::Dead
            }
        },
        Status::Dead => {
            if n == 3 {
                Status::Alive
            } else {
                Status::Dead
            }
        },
    }
}

/// Relies on macroquad::rand::gen_range (quad-rand's gen_range): the generator
/// word is scaled into [0.0, 2.0) and truncated toward zero, so the call with
/// bounds 0 and 2 returns either 0 or 1.
#[verifier::external_body]
fn random_bit() -> (r: u32)
    ensures
        r == 0 || r == 1,
{
    macroquad::rand::gen_range(0u32, 2u32)
}

impl Status {
    /// A status drawn from the process-wide random source: a fair coin flip
    /// between Alive and Dead. Nothing is promised of the outcome.
    pub fn random_value() -> Status {
        if random_bit() == 0 {
            Status::Alive
        } else {
            Status::Dead
        }
    }
}

/// The grid: a fixed-size two-dimensional array of cell statuses, addressed by
/// (row, column), 0-indexed, row-major. Its mathematical view is a sequence of
/// rows of booleans, `true` for Alive.
pub struct GridState {
    cells: Vec<Vec<Status>>,
}

impl View for GridState {
    type V = Seq<Seq<bool>>;

    closed spec fn view(&self) -> Seq<Seq<bool>> {
        self.cells@.map_values(|row: Vec<Status>| row@.map_values(|s: Status| s is Alive))
    }
}

impl GridState {
    /// The number of columns the grid was built with: the length of the first
    /// row, or 0 for a grid with no rows.
    pub open spec fn spec_cols(&self) -> int {
        if self@.len() == 0 {
            0
        } else {
            self@[0].len() as int
        }
    }

    /// Well-formedness: the grid is rectangular. Every row has the same
    /// length, so the dimensions rows x cols are meaningful.
    pub open spec fn wf(&self) -> bool {
        forall|i: int|
            0 <= i < self@.len() ==> (#[trigger] self@[i].len()) as int == self.spec_cols()
    }

    /// A grid built from the given statuses, row-major. The rows must all
    /// have the same length: the grid is rectangular, its dimensions fixed
    /// from now on.
    pub fn new(cells: Vec<Vec<Status>>) -> (g: GridState)
        requires
            forall|i: int|
                0 <= i < cells@.len() ==> (#[trigger] cells@[i]@.len()) == cells@[0]@.len(),
        ensures
            g.wf(),
            g@.len() == cells@.len(),
            forall|i: int| 0 <= i < cells@.len() ==> (#[trigger] g@[i].len()) == cells@[i]@.len(),
            forall|i: int, j: int|
                0 <= i < cells@.len() && 0 <= j < cells@[i]@.len() ==> (#[trigger] g@[i][j])
                    == (cells@[i]@[j] is Alive),
    {
        let g = GridState { cells };
        proof {
            assert forall|i: int| 0 <= i < g@.len() implies (#[trigger] g@[i].len())
                == g.cells@[i]@.len() by {
                assert(g@[i] == g.cells@[i]@.map_values(|s: Status| s is Alive));
            }
            assert forall|i: int, j: int|
                0 <= i < g@.len() && 0 <= j < g@[i].len() implies (#[trigger] g@[i][j])
                == (g.cells@[i]@[j] is Alive) by {
                assert(g@[i] == g.cells@[i]@.map_values(|s: Status| s is Alive));
            }
        }
        g
    }

    /// A rows x cols grid whose every cell is set by an independent draw from
    /// the process-wide random source: a fair coin flip between Alive and
    /// Dead. Rows or cols of 0 give an empty grid, whose `advance` is a no-op.
    pub fn new_random(rows: usize, cols: usize) -> (g: GridState)
        ensures
            g.wf(),
            g@.len() == rows,
            forall|i: int| 0 <= i < rows ==> (#[trigger] g@[i].len()) == cols,
    {
        let mut cells: Vec<Vec<Status>> = Vec::new();
        while cells.len() < rows
            invariant
                cells@.len() <= rows,
                forall|i: int| 0 <= i < cells@.len() ==> (#[trigger] cells@[i]@.len()) == cols,
            decreases rows - cells@.len(),
        {
            let mut row: Vec<Status> = Vec::new();
            while row.len() < cols
                invariant
                    row@.len() <= cols,
                decreases cols - row@.len(),
            {
                row.push(Status::random_value());
            }
            cells.push(row);
        }
        GridState::new(cells)
    }

    /// The number of rows.
    pub fn rows(&self) -> (r: usize)
        ensures
            r == self@.len(),
    {
        self.cells.len()
    }

    /// The number of columns.
    pub fn cols(&self) -> (c: usize)
        ensures
            c == self.spec_cols(),
    {
        if self.cells.len() == 0 {
            0
        } else {
            proof {
                assert(self@[0] == self.cells@[0]@.map_values(|s: Status| s is Alive));
            }
            self.cells[0].len()
        }
    }

    /// Whether (i, j) is inside the grid and the cell there is Alive. Total:
    /// any coordinates may be asked about, and positions outside the grid are
    /// never alive.
    fn alive_at(&self, i: usize, j: usize) -> (r: bool)
        ensures
            r == alive(self@, i as int, j as int),
    {
        proof {
            if (i as int) < self.cells@.len() {
                assert(self@[i as int] == self.cells@[i as int]@.map_values(
                    |s: Status| s is Alive,
                ));
            }
        }
        i < self.cells.len() && j < self.cells[i].len() && self.cells[i][j] == Status::Alive
    }

    /// Whether the cell at (i, j) is currently Alive. The coordinates must be
    /// inside the grid: an out-of-range query is a caller error, excluded by
    /// precondition rather than answered with a misleading default.
    pub fn is_alive(&self, i: usize, j: usize) -> (r: bool)
        requires
            i < self@.len(),
            j < self@[i as int].len(),
        ensures
            r == self@[i as int][j as int],
    {
        self.alive_at(i, j)
    }

    /// The number of cells among the 8 Moore-neighborhood positions of (i, j)
    /// that are both inside the grid and currently Alive. The grid has hard
    /// edges: out-of-bounds neighbors contribute nothing. Read-only, against
    /// the current grid.
    pub fn neighbor_count(&self, i: usize, j: usize) -> (n: usize)
        requires
            i < self@.len(),
            j < self@[i as int].len(),
        ensures
            n == live_neighbors(self@, i as int, j as int),
    {
        // These lengths bound i and j by a usize, so the +1 offsets below
        // cannot overflow.
        let _rows: usize = self.cells.len();
        proof {
            assert(self@[i as int] == self.cells@[i as int]@.map_values(|s: Status| s is Alive));
        }
        let _cols: usize = self.cells[i].len();
        let mut n: usize = 0;
        if i > 0 && j > 0 && self.alive_at(i - 1, j - 1) {
            n += 1;
        }
        if i > 0 && self.alive_at(i - 1, j) {
            n += 1;
        }
        if i > 0 && self.alive_at(i - 1, j + 1) {
            n += 1;
        }
        if j > 0 && self.alive_at(i, j - 1) {
            n += 1;
        }
        if self.alive_at(i, j + 1) {
            n += 1;
        }
        if j > 0 && self.alive_at(i + 1, j - 1) {
            n += 1;
        }
        if self.alive_at(i + 1, j) {
            n += 1;
        }
        if self.alive_at(i + 1, j + 1) {
            n += 1;
        }
        n
    }

    /// One synchronous generation: every cell's next status is judged against
    /// the grid as it stood when the call began, and the whole next generation
    /// replaces the grid at once. The dimensions never change.
    pub fn advance(&mut self)
        ensures
            final(self)@ == step(old(self)@),
            final(self)@.len() == old(self)@.len(),
            forall|i: int|
                0 <= i < old(self)@.len() ==> (#[trigger] final(self)@[i].len())
                    == old(self)@[i].len(),
            old(self).wf() ==> final(self).wf(),
    {
        let ghost g0 = self@;
        let rows = self.cells.len();
        let mut next: Vec<Vec<Status>> = Vec::new();
        let mut i: usize = 0;
        while i < rows
            invariant
                self@ == g0,
                rows == self.cells@.len(),
                i <= rows,
                next@.len() == i,
                forall|r: int| 0 <= r < i ==> (#[trigger] next@[r]@.len()) == g0[r].len(),
                forall|r: int, c: int|
                    0 <= r < i && 0 <= c < g0[r].len() ==> ((#[trigger] next@[r]@[c]) is Alive)
                        == next_alive(g0, r, c),
            decreases rows - i,
        {
            proof {
                assert(self@[i as int] == self.cells@[i as int]@.map_values(
                    |s: Status| s is Alive,
                ));
            }
            let cols_i = self.cells[i].len();
            let mut row: Vec<Status> = Vec::new();
            let mut j: usize = 0;
            while j < cols_i
                invariant
                    self@ == g0,
                    rows == self.cells@.len(),
                    i < rows,
                    cols_i == g0[i as int].len(),
                    j <= cols_i,
                    row@.len() == j,
                    forall|c: int|
                        0 <= c < j ==> ((#[trigger] row@[c]) is Alive) == next_alive(
                            g0,
                            i as int,
                            c,
                        ),
                decreases cols_i - j,
            {
                let n = self.neighbor_count(i, j);
                proof {
                    assert(self@[i as int] == self.cells@[i as int]@.map_values(
                        |s: Status| s is Alive,
                    ));
                }
                let cur = self.cells[i][j];
                row.push(next_status(cur, n));
                j += 1;
            }
            next.push(row);
            i += 1;
        }
        self.cells = next;
        proof {
            assert forall|r: int| 0 <= r < self@.len() implies self@[r] == step(g0)[r] by {
                assert(self@[r] == self.cells@[r]@.map_values(|s: Status| s is Alive));
                assert(self@[r] =~= step(g0)[r]);
            }
            assert(self@ =~~= step(g0));
        }
    }
}

} // verus!
