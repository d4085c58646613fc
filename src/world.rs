use vstd::prelude::*;
use crate::rules::{
    alive_at, display_char, lemma_neighbour_index_in_grid, neighbour_count, neighbour_index,
    next_generation, next_state, rule, valid_grid,
};

verus! {

/// Why a grid could not be built.
#[derive(Debug, Clone, Copy, PartialEq, Eq, Structural)]
pub enum WorldError {
    /// The width or the height is zero.
    ZeroDimension,
    /// The number of cells given is not width times height.
    CellCountMismatch,
}

/// A generation of the Game of Life on a torus of `cols` columns and `rows`
/// rows, with a scratch buffer for the neighbour counts that is allocated once
/// and reused by every step.
pub struct World {
    cols: usize,
    rows: usize,
    current: Vec<bool>,
    living_neighbours: Vec<u8>,
}

impl View for World {
    type V = Seq<bool>;

    /// The cells of the current generation, row-major.
    closed spec fn view(&self) -> Seq<bool> {
        self.current@
    }
}

/// Relies on rand::random: one boolean drawn from the thread-local generator;
/// nothing is promised of its value.
#[verifier::external_body]
fn random_bool() -> (r: bool) {
    rand::random::<bool>()
}

/// Moves `v` by `step - 1` (so by -1, 0 or +1) round a cycle of length `n`.
fn wrap(v: usize, step: usize, n: usize) -> (r: usize)
    requires
        v < n,
        step < 3,
    ensures
        r < n,
        r as int == (v + step - 1) % (n as int),
{
    let r = ((v as u128 + n as u128 + step as u128 - 1) % (n as u128)) as usize;
    proof {
        let s: int = v + step - 1;
        let t: int = s + n;
        vstd::arithmetic::div_mod::lemma_fundamental_div_mod(t, n as int);
        assert(s == (t / (n as int) - 1) * n + t % (n as int)) by (nonlinear_arith)
            requires
                t == n * (t / (n as int)) + t % (n as int),
                s == t - n,
        ;
        vstd::arithmetic::div_mod::lemma_fundamental_div_mod_converse(
            s,
            n as int,
            t / (n as int) - 1,
            t % (n as int),
        );
    }
    r
}

impl World {
    /// The number of columns.
    pub closed spec fn spec_cols(&self) -> int {
        self.cols as int
    }

    /// The number of rows.
    pub closed spec fn spec_rows(&self) -> int {
        self.rows as int
    }

    /// The dimensions are positive, the cells number `cols * rows`, and the
    /// scratch buffer has one entry per cell.
    pub closed spec fn wf(&self) -> bool {
        &&& valid_grid(self.current@, self.cols as int, self.rows as int)
        &&& self.cols * self.rows <= usize::MAX
        &&& self.living_neighbours@.len() == self.current@.len()
    }

    /// Builds a world from given cells, row-major; fails on a zero dimension
    /// or when there are not exactly `cols * rows` cells.
    pub fn from_cells(cols: usize, rows: usize, cells: Vec<bool>) -> (r: Result<World, WorldError>)
        ensures
            r is Ok <==> valid_grid(cells@, cols as int, rows as int),
            (cols == 0 || rows == 0) ==> r == Err::<World, WorldError>(WorldError::ZeroDimension),
            (cols > 0 && rows > 0 && cells@.len() != cols * rows) ==> r == Err::<World, WorldError>(
                WorldError::CellCountMismatch,
            ),
            r matches Ok(w) ==> w.wf() && w@ == cells@ && w.spec_cols() == cols && w.spec_rows()
                == rows,
    {
        let len = cells.len();
        if cols == 0 || rows == 0 {
            return Err(WorldError::ZeroDimension);
        }
        match cols.checked_mul(rows) {
            Some(n) => {
                if n != cells.len() {
                    return Err(WorldError::CellCountMismatch);
                }
            },
            None => {
                return Err(WorldError::CellCountMismatch);
            },
        }
        let n = cells.len();
        let mut living_neighbours: Vec<u8> = Vec::with_capacity(n);
        for i in 0..n
            invariant
                living_neighbours@.len() == i,
        {
            living_neighbours.push(0);
        }
        Ok(World { cols, rows, current: cells, living_neighbours })
    }

    /// Builds a world whose every cell is drawn alive or dead at random; fails
    /// on a zero dimension.
    pub fn new(cols: usize, rows: usize) -> (r: Result<World, WorldError>)
        requires
            cols * rows <= usize::MAX,
        ensures
            r is Ok <==> (cols > 0 && rows > 0),
            r is Err ==> r == Err::<World, WorldError>(WorldError::ZeroDimension),
            r matches Ok(w) ==> w.wf() && w@.len() == cols * rows && w.spec_cols() == cols
                && w.spec_rows() == rows,
    {
        if cols == 0 || rows == 0 {
            return Err(WorldError::ZeroDimension);
        }
        let n = cols * rows;
        let mut current: Vec<bool> = Vec::with_capacity(n);
        for i in 0..n
            invariant
                current@.len() == i,
        {
            current.push(random_bool());
        }
        World::from_cells(cols, rows, current)
    }

    /// The number of live cells among the eight neighbours of the cell at
    /// `index`, with the grid's edges wrapping round.
    pub fn living_neighbours(&self, index: usize) -> (r: u8)
        requires
            self.wf(),
            index < self@.len(),
        ensures
            r as int == neighbour_count(self@, self.spec_cols(), self.spec_rows(), index as int),
            r <= 8,
    {
        let ghost cells = self.current@;
        let ghost cols = self.cols as int;
        let ghost rows = self.rows as int;
        let row = index / self.cols;
        let col = index % self.cols;
        proof {
            vstd::arithmetic::div_mod::lemma_multiply_divide_lt(index as int, cols, rows);
        }
        let mut result: u8 = 0;
        for i in 0..3usize
            invariant
                self.wf(),
                cells == self.current@,
                cols == self.cols,
                rows == self.rows,
                index < cells.len(),
                row == index as int / cols,
                col == index as int % cols,
                row < rows,
                result as int == count_before(cells, cols, rows, index as int, 3 * i as nat),
                result <= 3 * i,
        {
            for j in 0..3usize
                invariant
                    self.wf(),
                    cells == self.current@,
                    cols == self.cols,
                    rows == self.rows,
                    index < cells.len(),
                    row == index as int / cols,
                    col == index as int % cols,
                    row < rows,
                    i < 3,
                    result as int == count_before(cells, cols, rows, index as int, (3 * i + j) as nat),
                    result <= 3 * i + j,
            {
                if i != 1 || j != 1 {
                    let x = wrap(col, i, self.cols);
                    let y = wrap(row, j, self.rows);
                    proof {
                        lemma_neighbour_index_in_grid(cols, rows, index as int, i - 1, j - 1);
                        assert(neighbour_index(cols, rows, index as int, i - 1, j - 1) == y * cols
                            + x);
                        assert(y * cols + x < cols * rows);
                        assert(y * cols <= y * cols + x);
                    }
                    if self.current[y * self.cols + x] {
                        result += 1;
                    }
                }
            }
        }
        proof {
            reveal_with_fuel(count_before, 10);
            assert(offset_term(cells, cols, rows, index as int, 0) == alive_at(cells, cols, rows, index as int, -1, -1));
            assert(offset_term(cells, cols, rows, index as int, 1) == alive_at(cells, cols, rows, index as int, -1, 0));
            assert(offset_term(cells, cols, rows, index as int, 2) == alive_at(cells, cols, rows, index as int, -1, 1));
            assert(offset_term(cells, cols, rows, index as int, 3) == alive_at(cells, cols, rows, index as int, 0, -1));
            assert(offset_term(cells, cols, rows, index as int, 5) == alive_at(cells, cols, rows, index as int, 0, 1));
            assert(offset_term(cells, cols, rows, index as int, 6) == alive_at(cells, cols, rows, index as int, 1, -1));
            assert(offset_term(cells, cols, rows, index as int, 7) == alive_at(cells, cols, rows, index as int, 1, 0));
            assert(offset_term(cells, cols, rows, index as int, 8) == alive_at(cells, cols, rows, index as int, 1, 1));
        }
        result
    }

    /// Replaces the current generation by the next one: first every neighbour
    /// count is taken from the current generation, then every cell is decided
    /// by the rule from its own state and that count.
    pub fn next_iteration(&mut self)
        requires
            old(self).wf(),
        ensures
            final(self).wf(),
            final(self).spec_cols() == old(self).spec_cols(),
            final(self).spec_rows() == old(self).spec_rows(),
            final(self)@ == next_generation(old(self)@, old(self).spec_cols(), old(self).spec_rows()),
    {
        let ghost prev = self.current@;
        let ghost cols = self.cols as int;
        let ghost rows = self.rows as int;
        let n = self.cols * self.rows;
        for idx in 0..n
            invariant
                self.wf(),
                self.current@ == prev,
                self.cols == cols,
                self.rows == rows,
                n == prev.len(),
                forall|k: int|
                    0 <= k < idx ==> self.living_neighbours@[k] as int == neighbour_count(
                        prev,
                        cols,
                        rows,
                        k,
                    ),
        {
            let count = self.living_neighbours(idx);
            self.living_neighbours.set(idx, count);
        }
        let ghost counts = self.living_neighbours@;
        for idx in 0..n
            invariant
                self.wf(),
                self.cols == cols,
                self.rows == rows,
                n == prev.len(),
                self.current@.len() == n,
                self.living_neighbours@ == counts,
                forall|k: int|
                    0 <= k < n ==> counts[k] as int == neighbour_count(prev, cols, rows, k),
                forall|k: int|
                    0 <= k < idx ==> self.current@[k] == rule(
                        prev[k],
                        neighbour_count(prev, cols, rows, k),
                    ),
                forall|k: int| idx <= k < n ==> self.current@[k] == prev[k],
        {
            let alive = self.current[idx];
            let next = next_state(alive, self.living_neighbours[idx]);
            self.current.set(idx, next);
        }
        assert(self.current@ =~= next_generation(prev, cols, rows));
    }

    /// Whether the cell at `index` is alive.
    pub fn cell_state(&self, index: usize) -> (r: bool)
        requires
            index < self@.len(),
        ensures
            r == self@[index as int],
    {
        self.current[index]
    }

    /// The cells of the current generation, row-major.
    pub fn cells(&self) -> (r: &[bool])
        ensures
            r@ == self@,
    {
        self.current.as_slice()
    }

    /// The number of columns.
    pub fn cols(&self) -> (r: usize)
        ensures
            r == self.spec_cols(),
    {
        self.cols
    }

    /// The number of rows.
    pub fn rows(&self) -> (r: usize)
        ensures
            r == self.spec_rows(),
    {
        self.rows
    }

    /// The characters that show the current generation, row-major: `X` for a
    /// live cell, a space for a dead one.
    pub fn cell_chars(&self) -> (r: Vec<char>)
        ensures
            r@.len() == self@.len(),
            forall|i: int| 0 <= i < r@.len() ==> r@[i] == display_char(self@[i]),
    {
        let mut chars: Vec<char> = Vec::with_capacity(self.current.len());
        for i in 0..self.current.len()
            invariant
                chars@.len() == i,
                forall|k: int| 0 <= k < i ==> chars@[k] == display_char(self.current@[k]),
        {
            let c = if self.current[i] {
                'X'
            } else {
                ' '
            };
            chars.push(c);
        }
        chars
    }
}

/// 1 for the neighbour number `k` (0 to 8, column offset `k / 3 - 1`, row
/// offset `k % 3 - 1`) if it is alive, 0 if it is dead or is the cell itself.
spec fn offset_term(cells: Seq<bool>, cols: int, rows: int, idx: int, k: int) -> int {
    if k == 4 {
        0
    } else {
        alive_at(cells, cols, rows, idx, k / 3 - 1, k % 3 - 1)
    }
}

/// The live neighbours among the first `k` positions of the 3x3 neighbourhood.
spec fn count_before(cells: Seq<bool>, cols: int, rows: int, idx: int, k: nat) -> int
    decreases k,
{
    if k == 0 {
        0
    } else {
        count_before(cells, cols, rows, idx, (k - 1) as nat) + offset_term(
            cells,
            cols,
            rows,
            idx,
            k - 1,
        )
    }
}

} // verus!
