//! Conway's Game of Life on a fixed-size rectangular grid with hard edges.
//!
//! The crate is the simulation engine alone: the grid of cell statuses, the
//! Moore-neighborhood count, and the synchronous generational update. A
//! surrounding driver supplies the grid size once, calls `advance` each tick,
//! and reads cells back through `is_alive` for rendering.

mod grid;
mod laws;
mod model;

pub use grid::{GridState, Status, next_status};
pub use laws::{
    lemma_blinker_flips, lemma_blinker_period_two, lemma_blinker_restores,
    lemma_corner_neighbor_bound, lemma_dimensions_invariant, lemma_isolated_cell_dies,
    lemma_processing_order_irrelevant, lemma_stable_block, lemma_still_life,
    lemma_step_preserves_dims,
};
pub use model::{alive, live_neighbors, next_alive, rule, sequential_step, step, step_n, with_cell};
