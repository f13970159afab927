//! Laws of the simulation, proved once and for all over the mathematical
//! model: dimension invariance, the corner neighbor bound, underpopulation of
//! an isolated cell, the stability of a 2x2 block, and the period-2 blinker.

use vstd::prelude::*;

use crate::model::{alive, live_neighbors, next_alive, sequential_step, step, step_n, with_cell};

verus! {

/// What one sequential pass leaves at each cell: a cell that `order` names
/// holds its next status, judged against the frozen snapshot `g0`; every
/// other cell keeps its working value; the dimensions are kept.
proof fn lemma_sequential_step_pointwise(
    g0: Seq<Seq<bool>>,
    g: Seq<Seq<bool>>,
    order: Seq<(int, int)>,
)
    requires
        g.len() == g0.len(),
        forall|r: int| 0 <= r < g0.len() ==> (#[trigger] g[r].len()) == g0[r].len(),
        forall|k: int|
            0 <= k < order.len() ==> 0 <= (#[trigger] order[k]).0 < g0.len() && 0 <= order[k].1
                < g0[order[k].0].len(),
    ensures
        sequential_step(g0, g, order).len() == g0.len(),
        forall|r: int|
            0 <= r < g0.len() ==> (#[trigger] sequential_step(g0, g, order)[r].len())
                == g0[r].len(),
        forall|i: int, j: int|
            0 <= i < g0.len() && 0 <= j < g0[i].len() ==> (#[trigger] sequential_step(
                g0,
                g,
                order,
            )[i][j]) == if order.contains((i, j)) {
                next_alive(g0, i, j)
            } else {
                g[i][j]
            },
    decreases order.len(),
{
    if order.len() == 0 {
        assert forall|i: int, j: int| 0 <= i < g0.len() && 0 <= j < g0[i].len() implies !order
            .contains((i, j)) by {}
    } else {
        let p = order[0];
        let b = next_alive(g0, p.0, p.1);
        let g1 = with_cell(g, p.0, p.1, b);
        let rest = order.drop_first();
        assert forall|r: int| 0 <= r < g0.len() implies (#[trigger] g1[r].len())
            == g0[r].len() by {
            if r == p.0 {
                assert(g1[r] == g[r].update(p.1, b));
            }
        }
        assert forall|k: int| 0 <= k < rest.len() implies 0 <= (#[trigger] rest[k]).0 < g0.len()
            && 0 <= rest[k].1 < g0[rest[k].0].len() by {
            assert(rest[k] == order[k + 1]);
        }
        lemma_sequential_step_pointwise(g0, g1, rest);
        assert forall|i: int, j: int|
            0 <= i < g0.len() && 0 <= j < g0[i].len() implies (#[trigger] sequential_step(
            g0,
            g,
            order,
        )[i][j]) == if order.contains((i, j)) {
            next_alive(g0, i, j)
        } else {
            g[i][j]
        } by {
            if (i, j) == p {
                assert(order.contains((i, j))) by {
                    assert(order[0] == (i, j));
                }
                if !rest.contains((i, j)) {
                    assert(g1[i] == g[i].update(j, b));
                    assert(g1[i][j] == b);
                }
            } else {
                assert(g1[i][j] == g[i][j]) by {
                    if i == p.0 {
                        assert(g1[i] == g[i].update(p.1, b));
                    }
                }
                assert(order.contains((i, j)) == rest.contains((i, j))) by {
                    if rest.contains((i, j)) {
                        let k = choose|k: int| 0 <= k < rest.len() && rest[k] == (i, j);
                        assert(order[k + 1] == (i, j));
                    }
                    if order.contains((i, j)) {
                        let k = choose|k: int| 0 <= k < order.len() && order[k] == (i, j);
                        assert(k != 0);
                        assert(rest[k - 1] == (i, j));
                    }
                }
            }
        }
    }
}

/// One generation keeps the grid's dimensions: the row count and every row's
/// length are unchanged.
pub proof fn lemma_step_preserves_dims(g: Seq<Seq<bool>>)
    ensures
        step(g).len() == g.len(),
        forall|i: int| 0 <= i < g.len() ==> (#[trigger] step(g)[i].len()) == g[i].len(),
{
}

/// Dimension invariance: however many generations pass, the grid's dimensions
/// never change.
pub proof fn lemma_dimensions_invariant(g: Seq<Seq<bool>>, n: nat)
    ensures
        step_n(g, n).len() == g.len(),
        forall|i: int| 0 <= i < g.len() ==> (#[trigger] step_n(g, n)[i].len()) == g[i].len(),
    decreases n,
{
    if n > 0 {
        lemma_dimensions_invariant(g, (n - 1) as nat);
        lemma_step_preserves_dims(step_n(g, (n - 1) as nat));
    }
}

/// Corner neighbor bound: the top-left cell has at most 3 live neighbors,
/// whatever the cell statuses, since only 3 of its 8 Moore-neighborhood
/// positions can lie inside the grid.
pub proof fn lemma_corner_neighbor_bound(g: Seq<Seq<bool>>)
    ensures
        0 <= live_neighbors(g, 0, 0) <= 3,
{
}

/// Isolated-cell death: an Alive cell whose 8 neighborhood positions hold no
/// Alive cell dies of underpopulation in one generation.
pub proof fn lemma_isolated_cell_dies(g: Seq<Seq<bool>>, i: int, j: int)
    requires
        alive(g, i, j),
        !alive(g, i - 1, j - 1),
        !alive(g, i - 1, j),
        !alive(g, i - 1, j + 1),
        !alive(g, i, j - 1),
        !alive(g, i, j + 1),
        !alive(g, i + 1, j - 1),
        !alive(g, i + 1, j),
        !alive(g, i + 1, j + 1),
    ensures
        !alive(step(g), i, j),
{
    assert(live_neighbors(g, i, j) == 0);
    assert(step(g)[i][j] == next_alive(g, i, j));
}

/// A still life stays a still life: a grid one generation leaves unchanged is
/// unchanged after any number of generations.
pub proof fn lemma_still_life(g: Seq<Seq<bool>>, n: nat)
    requires
        step(g) == g,
    ensures
        step_n(g, n) == g,
    decreases n,
{
    if n > 0 {
        lemma_still_life(g, (n - 1) as nat);
    }
}

/// Stable block: a grid whose Alive cells are exactly a 2x2 block is left
/// unchanged by a generation — each block cell keeps 3 live neighbors and
/// survives, and no dead cell sees the 3 live neighbors a birth needs.
/// Together with `lemma_still_life`, it is unchanged after any number of
/// generations.
pub proof fn lemma_stable_block(g: Seq<Seq<bool>>, r: int, c: int)
    requires
        alive(g, r, c),
        alive(g, r, c + 1),
        alive(g, r + 1, c),
        alive(g, r + 1, c + 1),
        forall|i: int, j: int|
            !((i == r || i == r + 1) && (j == c || j == c + 1)) ==> !(#[trigger] alive(g, i, j)),
    ensures
        step(g) == g,
{
    assert forall|i: int| 0 <= i < g.len() implies step(g)[i] =~= g[i] by {
        assert forall|j: int| 0 <= j < g[i].len() implies step(g)[i][j] == g[i][j] by {
            assert(step(g)[i][j] == next_alive(g, i, j));
            if (i == r || i == r + 1) && (j == c || j == c + 1) {
                assert(live_neighbors(g, i, j) == 3);
            } else {
                assert(live_neighbors(g, i, j) <= 2);
                assert(!alive(g, i, j));
            }
        }
    }
    assert(step(g) =~~= g);
}

/// Synchronous update: building the next generation by committing cells one
/// at a time — in any processing order that names every cell of the grid, and
/// only cells of the grid, as often as it likes — gives exactly the
/// synchronous `step`, as long as every neighbor count is judged against the
/// frozen snapshot. The result is independent of the processing order.
pub proof fn lemma_processing_order_irrelevant(g: Seq<Seq<bool>>, order: Seq<(int, int)>)
    requires
        forall|k: int|
            0 <= k < order.len() ==> 0 <= (#[trigger] order[k]).0 < g.len() && 0 <= order[k].1
                < g[order[k].0].len(),
        forall|i: int, j: int|
            0 <= i < g.len() && 0 <= j < g[i].len() ==> #[trigger] order.contains((i, j)),
    ensures
        sequential_step(g, g, order) == step(g),
{
    lemma_sequential_step_pointwise(g, g, order);
    let s = sequential_step(g, g, order);
    assert forall|i: int| 0 <= i < g.len() implies s[i] =~= step(g)[i] by {
        assert forall|j: int| 0 <= j < g[i].len() implies s[i][j] == step(g)[i][j] by {
            assert(order.contains((i, j)));
        }
    }
    assert(s =~~= step(g));
}

/// Blinker, first half-period: a grid whose Alive cells are exactly a
/// horizontal run of 3 centered at (r, c), with room above and below, holds
/// exactly the vertical run of 3 centered at (r, c) one generation later.
pub proof fn lemma_blinker_flips(g: Seq<Seq<bool>>, r: int, c: int)
    requires
        alive(g, r, c - 1),
        alive(g, r, c),
        alive(g, r, c + 1),
        forall|i: int, j: int|
            !(i == r && (j == c - 1 || j == c || j == c + 1)) ==> !(#[trigger] alive(g, i, j)),
        1 <= r,
        r + 1 < g.len(),
        c < g[r - 1].len(),
        c < g[r + 1].len(),
    ensures
        alive(step(g), r - 1, c),
        alive(step(g), r, c),
        alive(step(g), r + 1, c),
        forall|i: int, j: int|
            !(j == c && (i == r - 1 || i == r || i == r + 1)) ==> !(#[trigger] alive(
                step(g),
                i,
                j,
            )),
{
    lemma_step_preserves_dims(g);
    assert(live_neighbors(g, r - 1, c) == 3);
    assert(live_neighbors(g, r, c) == 2);
    assert(live_neighbors(g, r + 1, c) == 3);
    assert(alive(step(g), r - 1, c));
    assert(alive(step(g), r, c));
    assert(alive(step(g), r + 1, c));
    assert forall|i: int, j: int|
        !(j == c && (i == r - 1 || i == r || i == r + 1)) implies !(#[trigger] alive(
        step(g),
        i,
        j,
    )) by {
        if 0 <= i < g.len() && 0 <= j < g[i].len() {
            assert(alive(step(g), i, j) == next_alive(g, i, j));
            if i == r && (j == c - 1 || j == c + 1) {
                assert(live_neighbors(g, i, j) == 1);
            } else {
                assert(live_neighbors(g, i, j) != 3 || alive(g, i, j));
            }
        } else {
            assert(!alive(step(g), i, j));
        }
    }
}

/// Blinker, second half-period: a grid whose Alive cells are exactly a
/// vertical run of 3 centered at (r, c), with room to the left and right,
/// holds exactly the horizontal run of 3 centered at (r, c) one generation
/// later.
pub proof fn lemma_blinker_restores(g: Seq<Seq<bool>>, r: int, c: int)
    requires
        alive(g, r - 1, c),
        alive(g, r, c),
        alive(g, r + 1, c),
        forall|i: int, j: int|
            !(j == c && (i == r - 1 || i == r || i == r + 1)) ==> !(#[trigger] alive(g, i, j)),
        1 <= c,
        c + 1 < g[r].len(),
    ensures
        alive(step(g), r, c - 1),
        alive(step(g), r, c),
        alive(step(g), r, c + 1),
        forall|i: int, j: int|
            !(i == r && (j == c - 1 || j == c || j == c + 1)) ==> !(#[trigger] alive(
                step(g),
                i,
                j,
            )),
{
    lemma_step_preserves_dims(g);
    assert(live_neighbors(g, r, c - 1) == 3);
    assert(live_neighbors(g, r, c) == 2);
    assert(live_neighbors(g, r, c + 1) == 3);
    assert(alive(step(g), r, c - 1));
    assert(alive(step(g), r, c));
    assert(alive(step(g), r, c + 1));
    assert forall|i: int, j: int|
        !(i == r && (j == c - 1 || j == c || j == c + 1)) implies !(#[trigger] alive(
        step(g),
        i,
        j,
    )) by {
        if 0 <= i < g.len() && 0 <= j < g[i].len() {
            assert(alive(step(g), i, j) == next_alive(g, i, j));
            if j == c && (i == r - 1 || i == r + 1) {
                assert(live_neighbors(g, i, j) == 1);
            } else {
                assert(live_neighbors(g, i, j) != 3 || alive(g, i, j));
            }
        } else {
            assert(!alive(step(g), i, j));
        }
    }
}

/// Blinker period 2: a grid whose Alive cells are exactly a horizontal run of
/// 3 centered at (r, c), clear of the grid's edges, returns to itself after
/// two generations, having passed through the vertical run in between.
pub proof fn lemma_blinker_period_two(g: Seq<Seq<bool>>, r: int, c: int)
    requires
        alive(g, r, c - 1),
        alive(g, r, c),
        alive(g, r, c + 1),
        forall|i: int, j: int|
            !(i == r && (j == c - 1 || j == c || j == c + 1)) ==> !(#[trigger] alive(g, i, j)),
        1 <= r,
        r + 1 < g.len(),
        c < g[r - 1].len(),
        c < g[r + 1].len(),
    ensures
        step(step(g)) == g,
{
    lemma_step_preserves_dims(g);
    lemma_blinker_flips(g, r, c);
    lemma_blinker_restores(step(g), r, c);
    lemma_step_preserves_dims(step(g));
    let h = step(step(g));
    assert forall|i: int| 0 <= i < g.len() implies h[i] =~= g[i] by {
        assert forall|j: int| 0 <= j < g[i].len() implies h[i][j] == g[i][j] by {
            if i == r && (j == c - 1 || j == c || j == c + 1) {
                assert(alive(step(step(g)), i, j));
                assert(alive(g, i, j));
            } else {
                assert(!alive(step(step(g)), i, j));
                assert(!alive(g, i, j));
            }
        }
    }
    assert(h =~~= g);
}

} // verus!
