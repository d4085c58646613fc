use vstd::prelude::*;

verus! {

/// A grid of `cols` columns and `rows` rows, stored row-major in `cells`.
pub open spec fn valid_grid(cells: Seq<bool>, cols: int, rows: int) -> bool {
    &&& cols > 0
    &&& rows > 0
    &&& cells.len() == cols * rows
}

/// Linear index of the neighbour at offset (`dx`, `dy`) of the cell at `idx`,
/// with both coordinates wrapped round the torus (`%` is non-negative).
pub open spec fn neighbour_index(cols: int, rows: int, idx: int, dx: int, dy: int) -> int {
    ((idx / cols + dy) % rows) * cols + (idx % cols + dx) % cols
}

/// 1 if the neighbour at offset (`dx`, `dy`) of the cell at `idx` is alive, else 0.
pub open spec fn alive_at(cells: Seq<bool>, cols: int, rows: int, idx: int, dx: int, dy: int) -> int {
    if cells[neighbour_index(cols, rows, idx, dx, dy)] {
        1
    } else {
        0
    }
}

/// The number of live cells among the eight wrapped neighbours of the cell at `idx`.
pub open spec fn neighbour_count(cells: Seq<bool>, cols: int, rows: int, idx: int) -> int {
    alive_at(cells, cols, rows, idx, -1, -1) + alive_at(cells, cols, rows, idx, 0, -1)
        + alive_at(cells, cols, rows, idx, 1, -1) + alive_at(cells, cols, rows, idx, -1, 0)
        + alive_at(cells, cols, rows, idx, 1, 0) + alive_at(cells, cols, rows, idx, -1, 1)
        + alive_at(cells, cols, rows, idx, 0, 1) + alive_at(cells, cols, rows, idx, 1, 1)
}

/// Whether a cell is alive in the next generation: a live cell survives with
/// two or three live neighbours, a dead one is born with exactly three.
pub open spec fn rule(alive: bool, neighbours: int) -> bool {
    if alive {
        neighbours == 2 || neighbours == 3
    } else {
        neighbours == 3
    }
}

/// The generation that follows `cells`: every cell is decided by the rule from
/// its own state and its neighbour count in `cells`.
pub open spec fn next_generation(cells: Seq<bool>, cols: int, rows: int) -> Seq<bool> {
    Seq::new(cells.len(), |i: int| rule(cells[i], neighbour_count(cells, cols, rows, i)))
}

/// The character that shows a cell on screen.
pub open spec fn display_char(alive: bool) -> char {
    if alive {
        'X'
    } else {
        ' '
    }
}

/// Decides the next state of one cell from its state and its neighbour count.
pub fn next_state(alive: bool, neighbours: u8) -> (r: bool)
    ensures
        r == rule(alive, neighbours as int),
{
    if alive {
        match neighbours {
            2 | 3 => true,
            _ => false,
        }
    } else {
        neighbours == 3
    }
}

/// Every neighbour of a cell of a valid grid lies inside the grid.
pub proof fn lemma_neighbour_index_in_grid(cols: int, rows: int, idx: int, dx: int, dy: int)
    requires
        cols > 0,
        rows > 0,
    ensures
        0 <= neighbour_index(cols, rows, idx, dx, dy) < cols * rows,
{
    let y = (idx / cols + dy) % rows;
    let x = (idx % cols + dx) % cols;
    assert(0 <= y < rows);
    assert(0 <= x < cols);
    assert(0 <= y * cols + x < cols * rows) by (nonlinear_arith)
        requires
            0 <= y < rows,
            0 <= x < cols,
    ;
}

/// A neighbour count is never negative and never above eight.
pub proof fn lemma_neighbour_count_bounds(cells: Seq<bool>, cols: int, rows: int, idx: int)
    ensures
        0 <= neighbour_count(cells, cols, rows, idx) <= 8,
{
}

/// The next state of a cell is a function of its own state and its neighbour
/// count alone: two grids that agree on both at a cell agree there next.
pub proof fn lemma_rule_deterministic(
    a: Seq<bool>,
    b: Seq<bool>,
    cols: int,
    rows: int,
    idx: int,
)
    requires
        valid_grid(a, cols, rows),
        valid_grid(b, cols, rows),
        0 <= idx < a.len(),
        a[idx] == b[idx],
        neighbour_count(a, cols, rows, idx) == neighbour_count(b, cols, rows, idx),
    ensures
        next_generation(a, cols, rows)[idx] == next_generation(b, cols, rows)[idx],
{
}

/// A dead cell is born exactly when it has three live neighbours; with two or
/// four it stays dead.
pub proof fn lemma_birth(cells: Seq<bool>, cols: int, rows: int, idx: int)
    requires
        valid_grid(cells, cols, rows),
        0 <= idx < cells.len(),
        !cells[idx],
    ensures
        next_generation(cells, cols, rows)[idx] <==> neighbour_count(cells, cols, rows, idx)
            == 3,
        neighbour_count(cells, cols, rows, idx) == 2 ==> !next_generation(cells, cols, rows)[idx],
        neighbour_count(cells, cols, rows, idx) == 4 ==> !next_generation(cells, cols, rows)[idx],
{
}

/// A live cell survives exactly when it has two or three live neighbours; with
/// none, one, or four or more it dies.
pub proof fn lemma_survival(cells: Seq<bool>, cols: int, rows: int, idx: int)
    requires
        valid_grid(cells, cols, rows),
        0 <= idx < cells.len(),
        cells[idx],
    ensures
        next_generation(cells, cols, rows)[idx] <==> (neighbour_count(cells, cols, rows, idx) == 2
            || neighbour_count(cells, cols, rows, idx) == 3),
        neighbour_count(cells, cols, rows, idx) <= 1 ==> !next_generation(cells, cols, rows)[idx],
        neighbour_count(cells, cols, rows, idx) >= 4 ==> !next_generation(cells, cols, rows)[idx],
{
}

} // verus!
