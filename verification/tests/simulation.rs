use game_of_life::{GridState, Status, next_status};

fn grid_from(pattern: &[&[bool]]) -> GridState {
    let mut cells: Vec<Vec<Status>> = Vec::new();
    for row in pattern {
        let mut r: Vec<Status> = Vec::new();
        for &b in *row {
            r.push(if b { Status::Alive } else { Status::Dead });
        }
        cells.push(r);
    }
    GridState::new(cells)
}

fn snapshot(g: &GridState) -> Vec<Vec<bool>> {
    let mut out: Vec<Vec<bool>> = Vec::new();
    for i in 0..g.rows() {
        let mut row: Vec<bool> = Vec::new();
        for j in 0..g.cols() {
            row.push(g.is_alive(i, j));
        }
        out.push(row);
    }
    out
}

#[test]
fn dimensions_never_change() {
    let mut g = GridState::new_random(7, 11);
    assert_eq!(g.rows(), 7);
    assert_eq!(g.cols(), 11);
    for _ in 0..25 {
        g.advance();
        assert_eq!(g.rows(), 7);
        assert_eq!(g.cols(), 11);
    }
}

#[test]
fn corner_has_at_most_three_neighbors() {
    let t = true;
    let g = grid_from(&[&[t, t, t], &[t, t, t], &[t, t, t]]);
    assert_eq!(g.neighbor_count(0, 0), 3);
    assert_eq!(g.neighbor_count(0, 2), 3);
    assert_eq!(g.neighbor_count(2, 0), 3);
    assert_eq!(g.neighbor_count(2, 2), 3);
    assert_eq!(g.neighbor_count(0, 1), 5);
    assert_eq!(g.neighbor_count(1, 1), 8);
}

#[test]
fn isolated_cell_dies() {
    let f = false;
    let mut g = grid_from(&[&[f, f, f], &[f, true, f], &[f, f, f]]);
    assert!(g.is_alive(1, 1));
    assert_eq!(g.neighbor_count(1, 1), 0);
    g.advance();
    for i in 0..3 {
        for j in 0..3 {
            assert!(!g.is_alive(i, j));
        }
    }
}

#[test]
fn block_is_a_still_life() {
    let t = true;
    let f = false;
    let mut g = grid_from(&[
        &[f, f, f, f],
        &[f, t, t, f],
        &[f, t, t, f],
        &[f, f, f, f],
    ]);
    let before = snapshot(&g);
    for _ in 0..10 {
        g.advance();
        assert_eq!(snapshot(&g), before);
    }
}

#[test]
fn blinker_oscillates_with_period_two() {
    let t = true;
    let f = false;
    let mut g = grid_from(&[
        &[f, f, f, f, f],
        &[f, f, f, f, f],
        &[f, t, t, t, f],
        &[f, f, f, f, f],
        &[f, f, f, f, f],
    ]);
    let horizontal = snapshot(&g);
    g.advance();
    let vertical = snapshot(&g);
    for i in 0..5 {
        for j in 0..5 {
            let expect = j == 2 && (1..=3).contains(&i);
            assert_eq!(vertical[i][j], expect);
        }
    }
    g.advance();
    assert_eq!(snapshot(&g), horizontal);
    g.advance();
    assert_eq!(snapshot(&g), vertical);
}

#[test]
fn advance_is_independent_of_processing_order() {
    let t = true;
    let f = false;
    let mut g = grid_from(&[
        &[t, f, t, f, t],
        &[f, t, t, f, f],
        &[t, f, f, t, t],
        &[f, t, f, t, f],
    ]);
    let rows = g.rows();
    let cols = g.cols();
    // All counts below are taken from the same frozen pre-advance grid, in
    // three different processing orders; the results must agree.
    let mut row_major = vec![vec![false; cols]; rows];
    for i in 0..rows {
        for j in 0..cols {
            let s = next_status(
                if g.is_alive(i, j) { Status::Alive } else { Status::Dead },
                g.neighbor_count(i, j),
            );
            row_major[i][j] = s == Status::Alive;
        }
    }
    let mut col_major = vec![vec![false; cols]; rows];
    for j in 0..cols {
        for i in 0..rows {
            let s = next_status(
                if g.is_alive(i, j) { Status::Alive } else { Status::Dead },
                g.neighbor_count(i, j),
            );
            col_major[i][j] = s == Status::Alive;
        }
    }
    let mut reversed = vec![vec![false; cols]; rows];
    for i in (0..rows).rev() {
        for j in (0..cols).rev() {
            let s = next_status(
                if g.is_alive(i, j) { Status::Alive } else { Status::Dead },
                g.neighbor_count(i, j),
            );
            reversed[i][j] = s == Status::Alive;
        }
    }
    assert_eq!(row_major, col_major);
    assert_eq!(row_major, reversed);
    g.advance();
    assert_eq!(snapshot(&g), row_major);
}

#[test]
fn advance_is_deterministic_for_a_fixed_grid() {
    let t = true;
    let f = false;
    let pattern: &[&[bool]] = &[
        &[t, t, f, f],
        &[f, t, f, t],
        &[t, f, f, f],
        &[f, t, t, f],
    ];
    let mut a = grid_from(pattern);
    let mut b = grid_from(pattern);
    for _ in 0..5 {
        a.advance();
        b.advance();
        assert_eq!(snapshot(&a), snapshot(&b));
    }
}

#[test]
fn rule_table_is_exact() {
    // Alive: dies under 2, survives on 2 or 3, dies over 3.
    assert_eq!(next_status(Status::Alive, 0), Status::Dead);
    assert_eq!(next_status(Status::Alive, 1), Status::Dead);
    assert_eq!(next_status(Status::Alive, 2), Status::Alive);
    assert_eq!(next_status(Status::Alive, 3), Status::Alive);
    for n in 4..=8 {
        assert_eq!(next_status(Status::Alive, n), Status::Dead);
    }
    // Dead: born on exactly 3, stays dead otherwise.
    for n in 0..=8 {
        let expect = if n == 3 { Status::Alive } else { Status::Dead };
        assert_eq!(next_status(Status::Dead, n), expect);
    }
}

#[test]
fn neighbor_count_has_hard_edges() {
    let t = true;
    let g = grid_from(&[&[t, t], &[t, t]]);
    assert_eq!(g.neighbor_count(0, 0), 3);
    assert_eq!(g.neighbor_count(1, 1), 3);
    let lone = grid_from(&[&[t]]);
    assert_eq!(lone.neighbor_count(0, 0), 0);
}

#[test]
fn empty_grid_advance_is_a_no_op() {
    let mut g = GridState::new_random(0, 0);
    assert_eq!(g.rows(), 0);
    assert_eq!(g.cols(), 0);
    g.advance();
    assert_eq!(g.rows(), 0);
    assert_eq!(g.cols(), 0);
    let mut h = GridState::new_random(0, 9);
    assert_eq!(h.rows(), 0);
    h.advance();
    assert_eq!(h.rows(), 0);
}

#[test]
fn one_by_one_grid_dies_or_stays_dead() {
    let mut alive = grid_from(&[&[true]]);
    alive.advance();
    assert!(!alive.is_alive(0, 0));
    let mut dead = grid_from(&[&[false]]);
    dead.advance();
    assert!(!dead.is_alive(0, 0));
}

#[test]
fn random_grid_has_requested_shape_and_two_valued_cells() {
    let g = GridState::new_random(13, 17);
    assert_eq!(g.rows(), 13);
    assert_eq!(g.cols(), 17);
    let mut saw_alive = false;
    let mut saw_dead = false;
    for i in 0..13 {
        for j in 0..17 {
            if g.is_alive(i, j) {
                saw_alive = true;
            } else {
                saw_dead = true;
            }
        }
    }
    // 221 independent fair coin flips: both statuses occur.
    assert!(saw_alive && saw_dead);
}

#[test]
fn random_values_are_both_statuses() {
    let mut saw_alive = false;
    let mut saw_dead = false;
    for _ in 0..200 {
        match Status::random_value() {
            Status::Alive => saw_alive = true,
            Status::Dead => saw_dead = true,
        }
    }
    assert!(saw_alive && saw_dead);
}
