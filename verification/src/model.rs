//! Mathematical model of the simulation: a grid is a sequence of rows, each a
//! sequence of booleans (`true` = alive), and one generation is the pure
//! function `step`.

use vstd::prelude::*;

verus! {

/// Whether the cell at (i, j) is inside the grid and alive. Positions outside
/// the grid are never alive: the grid has hard edges, no wraparound.
pub open spec fn alive(g: Seq<Seq<bool>>, i: int, j: int) -> bool {
    0 <= i < g.len() && 0 <= j < g[i].len() && g[i][j]
}

/// The number of alive cells among the 8 Moore-neighborhood positions of
/// (i, j). Out-of-bounds positions contribute nothing.
pub open spec fn live_neighbors(g: Seq<Seq<bool>>, i: int, j: int) -> int {
    (if alive(g, i - 1, j - 1) { 1int } else { 0int })
        + (if alive(g, i - 1, j) { 1int } else { 0int })
        + (if alive(g, i - 1, j + 1) { 1int } else { 0int })
        + (if alive(g, i, j - 1) { 1int } else { 0int })
        + (if alive(g, i, j + 1) { 1int } else { 0int })
        + (if alive(g, i + 1, j - 1) { 1int } else { 0int })
        + (if alive(g, i + 1, j) { 1int } else { 0int })
        + (if alive(g, i + 1, j + 1) { 1int } else { 0int })
}

/// The transition rule for one cell: an alive cell survives with 2 or 3 alive
/// neighbors (and dies of under- or overpopulation otherwise); a dead cell is
/// born with exactly 3 alive neighbors (and stays dead otherwise).
pub open spec fn rule(a: bool, n: int) -> bool {
    if a {
        2 <= n <= 3
    } else {
        n == 3
    }
}

/// Whether the cell at (i, j) is alive in the next generation, judged entirely
/// against the current grid `g`.
pub open spec fn next_alive(g: Seq<Seq<bool>>, i: int, j: int) -> bool {
    rule(alive(g, i, j), live_neighbors(g, i, j))
}

/// One synchronous generation: every cell's next status is computed from the
/// same frozen snapshot `g`, and the dimensions are kept.
pub open spec fn step(g: Seq<Seq<bool>>) -> Seq<Seq<bool>> {
    Seq::new(g.len(), |i: int| Seq::new(g[i].len(), |j: int| next_alive(g, i, j)))
}

/// The grid `g` with the status at (i, j) replaced by `b`. Meaningful for
/// in-bounds (i, j); the dimensions are kept either way.
pub open spec fn with_cell(g: Seq<Seq<bool>>, i: int, j: int, b: bool) -> Seq<Seq<bool>> {
    g.update(i, g[i].update(j, b))
}

/// A next generation built sequentially rather than all at once: the cells
/// named by `order` are written one at a time into the working grid `g`,
/// while every neighbor count is still judged against the frozen snapshot
/// `g0` — no written value is ever read back.
pub open spec fn sequential_step(
    g0: Seq<Seq<bool>>,
    g: Seq<Seq<bool>>,
    order: Seq<(int, int)>,
) -> Seq<Seq<bool>>
    decreases order.len(),
{
    if order.len() == 0 {
        g
    } else {
        sequential_step(
            g0,
            with_cell(g, order[0].0, order[0].1, next_alive(g0, order[0].0, order[0].1)),
            order.drop_first(),
        )
    }
}

/// `n` generations in a row.
pub open spec fn step_n(g: Seq<Seq<bool>>, n: nat) -> Seq<Seq<bool>>
    decreases n,
{
    if n == 0 {
        g
    } else {
        step(step_n(g, (n - 1) as nat))
    }
}

} // verus!
