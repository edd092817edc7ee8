//! Conway's Game of Life on a fixed-size toroidal grid.
//!
//! The grid is a flat, row-major buffer of cells; neighbor lookups wrap
//! around the edges by modular arithmetic, and each generation is computed
//! from a snapshot of the previous one (classic B3/S23 rule).

use vstd::prelude::*;

verus! {

use vstd::arithmetic::div_mod::lemma_fundamental_div_mod_converse;
use vstd::arithmetic::div_mod::lemma_mod_bound;
use vstd::pervasive::VecAdditionalExecFns;
use vstd::string::StringExecFns;

/// The state of a single cell.
#[derive(Debug, Copy, Clone, PartialEq, Eq, Structural)]
pub enum Cell {
    Alive,
    Dead,
}

/// A toroidal Game of Life grid: `width * height` cells in row-major order.
pub struct Universe {
    width: u32,
    height: u32,
    cells: Vec<Cell>,
}

impl Universe {
    /// The grid width, as a mathematical integer.
    pub closed spec fn spec_width(self) -> int {
        self.width as int
    }

    /// The grid height, as a mathematical integer.
    pub closed spec fn spec_height(self) -> int {
        self.height as int
    }

    /// The cell buffer, as a mathematical sequence.
    pub closed spec fn spec_cells(self) -> Seq<Cell> {
        self.cells@
    }

    /// The grid invariant: the buffer holds exactly `width * height` cells.
    pub open spec fn wf(self) -> bool {
        self.spec_cells().len() == self.spec_width() * self.spec_height()
    }

    /// Whether `(row, col)` names a cell of the grid.
    pub open spec fn in_bounds(self, row: int, col: int) -> bool {
        0 <= row < self.spec_height() && 0 <= col < self.spec_width()
    }

    /// The cell at `(row, col)`, in row-major order.
    pub open spec fn cell_at(self, row: int, col: int) -> Cell
        recommends
            self.wf(),
            self.in_bounds(row, col),
    {
        self.spec_cells()[row * self.spec_width() + col]
    }

    /// Builds a grid from explicit dimensions and an initial buffer.
    pub fn from_cells(width: u32, height: u32, cells: Vec<Cell>) -> (u: Universe)
        requires
            cells@.len() == width as int * height as int,
        ensures
            u.wf(),
            u.spec_width() == width as int,
            u.spec_height() == height as int,
            u.spec_cells() == cells@,
            u.spec_cells().len() == width as int * height as int,
    {
        Universe { width, height, cells }
    }

    /// The flat index of `(row, col)` in the row-major buffer.
    pub fn get_index(&self, row: u32, column: u32) -> (idx: usize)
        requires
            self.wf(),
            self.in_bounds(row as int, column as int),
        ensures
            idx == row as int * self.spec_width() + column as int,
            idx < self.spec_cells().len(),
    {
        let n = self.cells.len();
        proof {
            lemma_flat_index_in_range(
                row as int,
                column as int,
                self.spec_height(),
                self.spec_width(),
            );
            assert((row as int) * self.spec_width() + (column as int) < (n as int));
        }
        (row as usize) * (self.width as usize) + (column as usize)
    }

    /// Weight contributed by the cell at offset `(dr, dc)` from `(row, col)`,
    /// with toroidal wraparound: 1 if that cell is Alive, 0 if it is Dead.
    /// A zero offset pair contributes nothing (a cell is not its own
    /// neighbor); this exclusion goes by the offset values, so on a grid of
    /// height or width 1 the wrapped offsets collapse into it.
    pub open spec fn delta_weight(self, row: int, col: int, dr: int, dc: int) -> int
        recommends
            self.wf(),
            self.in_bounds(row, col),
    {
        if dr == 0 && dc == 0 {
            0
        } else {
            let r = (row + dr) % self.spec_height();
            let c = (col + dc) % self.spec_width();
            if self.cell_at(r, c) == Cell::Alive {
                1
            } else {
                0
            }
        }
    }

    /// The number of live cells in the toroidal Moore neighborhood of
    /// `(row, col)`. The row offsets considered are `height - 1`, `0` and
    /// `1`, the column offsets `width - 1`, `0` and `1` (the wrapping
    /// equivalents of -1, 0 and 1 for unsigned coordinates), and the cell
    /// itself is excluded. On a grid narrower or shorter than 3 the offsets
    /// coincide, so neighbors are double-counted or self-counted through the
    /// wraparound; that is part of the toroidal model and is kept as is.
    pub open spec fn live_neighbor_count_spec(self, row: int, col: int) -> int
        recommends
            self.wf(),
            self.in_bounds(row, col),
    {
        let up = self.spec_height() - 1;
        let left = self.spec_width() - 1;
        self.delta_weight(row, col, up, left) + self.delta_weight(row, col, up, 0)
            + self.delta_weight(row, col, up, 1) + self.delta_weight(row, col, 0, left)
            + self.delta_weight(row, col, 0, 1) + self.delta_weight(row, col, 1, left)
            + self.delta_weight(row, col, 1, 0) + self.delta_weight(row, col, 1, 1)
    }

    /// Reads the wrapped neighbor at offset `(dr, dc)` and returns its
    /// weight: 1 for a live neighbor, 0 otherwise.
    fn neighbor_weight(&self, row: u32, column: u32, dr: u32, dc: u32) -> (weight: u8)
        requires
            self.wf(),
            self.in_bounds(row as int, column as int),
        ensures
            weight as int == self.delta_weight(row as int, column as int, dr as int, dc as int),
            weight <= 1,
    {
        if dr == 0 && dc == 0 {
            return 0;
        }
        let r = ((row as u64 + dr as u64) % (self.height as u64)) as u32;
        let c = ((column as u64 + dc as u64) % (self.width as u64)) as u32;
        proof {
            lemma_mod_bound(row as int + dr as int, self.spec_height());
            lemma_mod_bound(column as int + dc as int, self.spec_width());
        }
        let idx = self.get_index(r, c);
        match self.cells[idx] {
            Cell::Alive => 1,
            Cell::Dead => 0,
        }
    }

    /// Counts the live cells in the toroidal Moore neighborhood of
    /// `(row, col)`, between 0 and 8.
    pub fn live_neighbor_count(&self, row: u32, column: u32) -> (count: u8)
        requires
            self.wf(),
            self.in_bounds(row as int, column as int),
        ensures
            count as int == self.live_neighbor_count_spec(row as int, column as int),
            count <= 8,
    {
        let up = self.height - 1;
        let left = self.width - 1;
        let mut count: u8 = 0;
        count += self.neighbor_weight(row, column, up, left);
        count += self.neighbor_weight(row, column, up, 0);
        count += self.neighbor_weight(row, column, up, 1);
        count += self.neighbor_weight(row, column, 0, left);
        count += self.neighbor_weight(row, column, 0, 1);
        count += self.neighbor_weight(row, column, 1, left);
        count += self.neighbor_weight(row, column, 1, 0);
        count += self.neighbor_weight(row, column, 1, 1);
        count
    }

    /// The state of `(row, col)` in the next generation, under the classic
    /// B3/S23 rule: a live cell survives with 2 or 3 live neighbors and dies
    /// otherwise (underpopulation below 2, overpopulation above 3); a dead
    /// cell becomes alive with exactly 3 live neighbors and stays dead
    /// otherwise.
    pub open spec fn next_cell(self, row: int, col: int) -> Cell
        recommends
            self.wf(),
            self.in_bounds(row, col),
    {
        let n = self.live_neighbor_count_spec(row, col);
        match self.cell_at(row, col) {
            Cell::Alive => if n < 2 || n > 3 {
                Cell::Dead
            } else {
                Cell::Alive
            },
            Cell::Dead => if n == 3 {
                Cell::Alive
            } else {
                Cell::Dead
            },
        }
    }

    /// Advances the grid by one generation. Every cell's next state is
    /// computed from a snapshot of the pre-tick grid, so the transition is
    /// applied simultaneously to all cells.
    pub fn tick(&mut self)
        requires
            old(self).wf(),
        ensures
            final(self).wf(),
            final(self).spec_width() == old(self).spec_width(),
            final(self).spec_height() == old(self).spec_height(),
            forall|r: int, c: int|
                old(self).in_bounds(r, c) ==> final(self).cell_at(r, c) == old(self).next_cell(
                    r,
                    c,
                ),
    {
        let ghost w = self.spec_width();
        let ghost h = self.spec_height();
        let mut next: Vec<Cell> = Vec::new();
        for row in 0..self.height
            invariant
                self == old(self),
                self.wf(),
                w == self.spec_width(),
                h == self.spec_height(),
                next@.len() == row as int * w,
                forall|r: int, c: int|
                    0 <= r < row as int && 0 <= c < w ==> next@[r * w + c] == self.next_cell(r, c),
        {
            for col in 0..self.width
                invariant
                    self == old(self),
                    self.wf(),
                    w == self.spec_width(),
                    h == self.spec_height(),
                    row < self.height,
                    next@.len() == row as int * w + col as int,
                    forall|r: int, c: int|
                        0 <= r < row as int && 0 <= c < w ==> next@[r * w + c] == self.next_cell(
                            r,
                            c,
                        ),
                    forall|c: int|
                        0 <= c < col as int ==> next@[row as int * w + c] == self.next_cell(
                            row as int,
                            c,
                        ),
            {
                let idx = self.get_index(row, col);
                let cell = self.cells[idx];
                let neighbor_count = self.live_neighbor_count(row, col);
                let next_cell = match cell {
                    Cell::Alive => if neighbor_count < 2 || neighbor_count > 3 {
                        Cell::Dead
                    } else {
                        Cell::Alive
                    },
                    Cell::Dead => if neighbor_count == 3 {
                        Cell::Alive
                    } else {
                        Cell::Dead
                    },
                };
                next.push(next_cell);
                proof {
                    assert forall|r: int, c: int|
                        0 <= r < row as int && 0 <= c < w implies next@[r * w + c]
                        == self.next_cell(r, c) by {
                        lemma_flat_index_in_range(r, c, row as int, w);
                    }
                }
            }
            proof {
                assert((row as int + 1) * w == row as int * w + w) by (nonlinear_arith);
            }
        }
        proof {
            assert(next@.len() == w * h) by (nonlinear_arith)
                requires
                    next@.len() == h * w,
            ;
        }
        self.cells = next;
        proof {
            assert forall|r: int, c: int| old(self).in_bounds(r, c) implies self.cell_at(r, c)
                == old(self).next_cell(r, c) by {
                lemma_flat_index_in_range(r, c, h, w);
            }
        }
    }
}

/// The deterministic seed pattern of the default grid: the cell at flat
/// index `i` starts Alive exactly when `i` is divisible by 2 or by 7.
pub open spec fn seed_cell(i: int) -> Cell {
    if i % 2 == 0 || i % 7 == 0 {
        Cell::Alive
    } else {
        Cell::Dead
    }
}

impl Universe {
    /// Builds the default 64 x 64 grid with the deterministic seed pattern:
    /// cell `i` is Alive iff `i % 2 == 0` or `i % 7 == 0`. Two grids built
    /// this way are identical.
    pub fn new() -> (u: Universe)
        ensures
            u.wf(),
            u.spec_width() == 64,
            u.spec_height() == 64,
            u.spec_cells().len() == 4096,
            forall|i: int| 0 <= i < 4096 ==> u.spec_cells()[i] == seed_cell(i),
    {
        let width: u32 = 64;
        let height: u32 = 64;
        let mut cells: Vec<Cell> = Vec::new();
        for i in 0..4096usize
            invariant
                cells@.len() == i,
                forall|j: int| 0 <= j < i as int ==> cells@[j] == seed_cell(j),
        {
            let cell = if i % 2 == 0 || i % 7 == 0 {
                Cell::Alive
            } else {
                Cell::Dead
            };
            cells.push(cell);
        }
        Universe { width, height, cells }
    }

    /// The total number of cells, `width * height`.
    pub fn len(&self) -> (n: usize)
        ensures
            n == self.spec_cells().len(),
            self.wf() ==> n == self.spec_width() * self.spec_height(),
    {
        self.cells.len()
    }

    /// The grid width.
    pub fn width(&self) -> (w: u32)
        ensures
            w as int == self.spec_width(),
    {
        self.width
    }

    /// The grid height.
    pub fn height(&self) -> (h: u32)
        ensures
            h as int == self.spec_height(),
    {
        self.height
    }

    /// Read-only view of the current generation's buffer, valid until the
    /// next mutating call.
    pub fn get_cells(&self) -> (cells: &[Cell])
        ensures
            cells@ == self.spec_cells(),
    {
        self.cells.as_slice()
    }

    /// Read-only view of the current generation's buffer, valid until the
    /// next mutating call; a renderer may read it but can never corrupt the
    /// grid through it.
    pub fn cells(&self) -> (cells: &[Cell])
        ensures
            cells@ == self.spec_cells(),
    {
        self.cells.as_slice()
    }

    /// Replaces the width and resets every cell of the rebuilt
    /// `width * height` buffer to Dead. This is a destructive reset, not a
    /// resize: no prior pattern survives. The height is left unchanged.
    pub fn set_width(&mut self, width: u32)
        requires
            width as int * old(self).spec_height() <= usize::MAX as int,
        ensures
            final(self).wf(),
            final(self).spec_width() == width as int,
            final(self).spec_height() == old(self).spec_height(),
            forall|i: int|
                0 <= i < final(self).spec_cells().len() ==> final(self).spec_cells()[i]
                    == Cell::Dead,
    {
        let n = (width as usize) * (self.height as usize);
        self.width = width;
        self.cells = vec![Cell::Dead; n];
    }

    /// Replaces the height and resets every cell of the rebuilt
    /// `width * height` buffer to Dead. This is a destructive reset, not a
    /// resize: no prior pattern survives. The width is left unchanged.
    pub fn set_height(&mut self, height: u32)
        requires
            old(self).spec_width() * height as int <= usize::MAX as int,
        ensures
            final(self).wf(),
            final(self).spec_width() == old(self).spec_width(),
            final(self).spec_height() == height as int,
            forall|i: int|
                0 <= i < final(self).spec_cells().len() ==> final(self).spec_cells()[i]
                    == Cell::Dead,
    {
        let n = (self.width as usize) * (height as usize);
        self.height = height;
        self.cells = vec![Cell::Dead; n];
    }
}

/// Whether one of the first `k` coordinate pairs of `coords` names
/// `(row, col)`.
pub open spec fn coord_listed(coords: Seq<(u32, u32)>, k: int, row: int, col: int) -> bool {
    exists|j: int|
        0 <= j < k && (#[trigger] coords[j]).0 as int == row && coords[j].1 as int == col
}

impl Universe {
    /// Sets each cell named by `coords` to Alive and leaves every other
    /// cell at its prior state. Callers paint initial patterns with it.
    pub fn set_cells(&mut self, coords: &[(u32, u32)])
        requires
            old(self).wf(),
            forall|k: int|
                0 <= k < coords@.len() ==> old(self).in_bounds(
                    (#[trigger] coords@[k]).0 as int,
                    coords@[k].1 as int,
                ),
        ensures
            final(self).wf(),
            final(self).spec_width() == old(self).spec_width(),
            final(self).spec_height() == old(self).spec_height(),
            forall|r: int, c: int|
                old(self).in_bounds(r, c) ==> final(self).cell_at(r, c) == (
                if coord_listed(coords@, coords@.len() as int, r, c) {
                    Cell::Alive
                } else {
                    old(self).cell_at(r, c)
                }),
    {
        let ghost w = self.spec_width();
        let ghost h = self.spec_height();
        for k in 0..coords.len()
            invariant
                self.wf(),
                w == self.spec_width(),
                h == self.spec_height(),
                w == old(self).spec_width(),
                h == old(self).spec_height(),
                forall|j: int|
                    0 <= j < coords@.len() ==> self.in_bounds(
                        (#[trigger] coords@[j]).0 as int,
                        coords@[j].1 as int,
                    ),
                forall|r: int, c: int|
                    self.in_bounds(r, c) ==> self.cell_at(r, c) == (
                    if coord_listed(coords@, k as int, r, c) {
                        Cell::Alive
                    } else {
                        old(self).cell_at(r, c)
                    }),
        {
            let (row, col) = coords[k];
            let idx = self.get_index(row, col);
            let ghost prev = *self;
            self.cells.set(idx, Cell::Alive);
            proof {
                assert forall|r: int, c: int| self.in_bounds(r, c) implies self.cell_at(r, c) == (
                    if coord_listed(coords@, k as int + 1, r, c) {
                        Cell::Alive
                    } else {
                        old(self).cell_at(r, c)
                    }) by {
                    lemma_flat_index_in_range(r, c, h, w);
                    assert(prev.cell_at(r, c) == (if coord_listed(coords@, k as int, r, c) {
                        Cell::Alive
                    } else {
                        old(self).cell_at(r, c)
                    }));
                    if r * w + c == row as int * w + col as int {
                        lemma_flat_index_injective(r, c, row as int, col as int, h, w);
                        assert((coords@[k as int]).0 as int == r && coords@[k as int].1 as int
                            == c);
                        assert(coord_listed(coords@, k as int + 1, r, c));
                    } else {
                        assert(self.cell_at(r, c) == prev.cell_at(r, c));
                        assert(coord_listed(coords@, k as int + 1, r, c) <==> coord_listed(
                            coords@,
                            k as int,
                            r,
                            c,
                        ));
                    }
                }
            }
        }
    }
}

/// The glyph that renders one cell.
pub open spec fn glyph(c: Cell) -> char {
    if c == Cell::Dead {
        '◻'
    } else {
        '◼'
    }
}

impl Universe {
    /// The textual rendering of the grid: `height` rows in row-major order,
    /// each holding `width` glyphs and ending with a newline.
    pub open spec fn render_spec(self) -> Seq<char>
        recommends
            self.wf(),
    {
        let w = self.spec_width();
        Seq::new(
            (self.spec_height() * (w + 1)) as nat,
            |i: int|
                if i % (w + 1) == w {
                    '\n'
                } else {
                    glyph(self.spec_cells()[(i / (w + 1)) * w + (i % (w + 1))])
                },
        )
    }

    /// Renders the grid as text: one line per row, one glyph per cell.
    pub fn render(&self) -> (text: String)
        requires
            self.wf(),
        ensures
            text@ == self.render_spec(),
    {
        let ghost w = self.spec_width();
        let ghost h = self.spec_height();
        let ghost out = self.render_spec();
        let mut text = String::new();
        proof {
            assert(out.take(0) =~= text@);
            assert(0int * (w + 1) == 0);
            assert(text@ == out.take(0int * (w + 1)));
        }
        for row in 0..self.height
            invariant
                self.wf(),
                w == self.spec_width(),
                h == self.spec_height(),
                out == self.render_spec(),
                text@ == out.take(row as int * (w + 1)),
        {
            for col in 0..self.width
                invariant
                    self.wf(),
                    w == self.spec_width(),
                    h == self.spec_height(),
                    out == self.render_spec(),
                    row < self.height,
                    text@ == out.take(row as int * (w + 1) + col as int),
            {
                let idx = self.get_index(row, col);
                let ghost pos = row as int * (w + 1) + col as int;
                proof {
                    reveal_strlit("◼");
                    reveal_strlit("◻");
                    lemma_flat_index_in_range(row as int, col as int, h, w + 1);
                    lemma_fundamental_div_mod_converse(pos, w + 1, row as int, col as int);
                }
                match self.cells[idx] {
                    Cell::Alive => text.append("◼"),
                    Cell::Dead => text.append("◻"),
                }
                proof {
                    assert(text@ =~= out.take(pos + 1));
                }
            }
            let ghost pos = row as int * (w + 1) + w;
            proof {
                reveal_strlit("\n");
                lemma_flat_index_in_range(row as int, w, h, w + 1);
                lemma_fundamental_div_mod_converse(pos, w + 1, row as int, w);
            }
            text.append("\n");
            proof {
                assert(text@ =~= out.take(pos + 1));
                assert((row as int + 1) * (w + 1) == pos + 1) by (nonlinear_arith)
                    requires
                        pos == row as int * (w + 1) + w,
                ;
            }
        }
        proof {
            assert(out.take(h * (w + 1)) =~= out);
        }
        text
    }
}

impl Default for Universe {
    /// Same grid as `Universe::new`: the seeded 64 x 64 pattern.
    fn default() -> (u: Universe)
        ensures
            u.wf(),
            u.spec_width() == 64,
            u.spec_height() == 64,
            forall|i: int| 0 <= i < 4096 ==> u.spec_cells()[i] == seed_cell(i),
    {
        Universe::new()
    }
}

/// Law: on a grid whose cells are all Dead, the toroidal neighbor count of
/// every cell is 0.
pub proof fn lemma_dead_grid_no_live_neighbors(u: Universe, row: int, col: int)
    requires
        u.wf(),
        u.in_bounds(row, col),
        forall|i: int| 0 <= i < u.spec_cells().len() ==> u.spec_cells()[i] == Cell::Dead,
    ensures
        u.live_neighbor_count_spec(row, col) == 0,
{
    let h = u.spec_height();
    let w = u.spec_width();
    assert forall|dr: int, dc: int| 0 <= dr && 0 <= dc implies #[trigger] u.delta_weight(
        row,
        col,
        dr,
        dc,
    ) == 0 by {
        if !(dr == 0 && dc == 0) {
            lemma_mod_bound(row + dr, h);
            lemma_mod_bound(col + dc, w);
            lemma_flat_index_in_range((row + dr) % h, (col + dc) % w, h, w);
        }
    }
}

/// Law: the generation rule is the classic B3/S23 rule. A live cell with
/// fewer than 2 live neighbors dies of underpopulation and one with more
/// than 3 dies of overpopulation; a live cell with exactly 2 or 3 live
/// neighbors survives; a dead cell with exactly 3 live neighbors becomes
/// alive, and any other dead cell stays dead.
pub proof fn lemma_transition_rule(u: Universe, row: int, col: int)
    requires
        u.wf(),
        u.in_bounds(row, col),
    ensures
        u.cell_at(row, col) == Cell::Alive && u.live_neighbor_count_spec(row, col) < 2
            ==> u.next_cell(row, col) == Cell::Dead,
        u.cell_at(row, col) == Cell::Alive && u.live_neighbor_count_spec(row, col) > 3
            ==> u.next_cell(row, col) == Cell::Dead,
        u.cell_at(row, col) == Cell::Alive && (u.live_neighbor_count_spec(row, col) == 2
            || u.live_neighbor_count_spec(row, col) == 3) ==> u.next_cell(row, col) == Cell::Alive,
        u.cell_at(row, col) == Cell::Dead && u.live_neighbor_count_spec(row, col) == 3
            ==> u.next_cell(row, col) == Cell::Alive,
        u.cell_at(row, col) == Cell::Dead && u.live_neighbor_count_spec(row, col) != 3
            ==> u.next_cell(row, col) == Cell::Dead,
{
}

/// A row-major flat index of an in-bounds coordinate lies inside the buffer.
proof fn lemma_flat_index_in_range(row: int, col: int, height: int, width: int)
    requires
        0 <= row < height,
        0 <= col < width,
    ensures
        0 <= row * width + col < height * width,
{
    assert(0 <= row * width + col < height * width) by (nonlinear_arith)
        requires
            0 <= row < height,
            0 <= col < width,
    ;
}

/// Row-major flat indexing is injective on in-bounds coordinates.
proof fn lemma_flat_index_injective(r1: int, c1: int, r2: int, c2: int, height: int, width: int)
    requires
        0 <= r1 < height,
        0 <= c1 < width,
        0 <= r2 < height,
        0 <= c2 < width,
        r1 * width + c1 == r2 * width + c2,
    ensures
        r1 == r2,
        c1 == c2,
{
    assert(r1 == r2 && c1 == c2) by (nonlinear_arith)
        requires
            0 <= r1 < height,
            0 <= c1 < width,
            0 <= r2 < height,
            0 <= c2 < width,
            r1 * width + c1 == r2 * width + c2,
    ;
}

} // verus!
