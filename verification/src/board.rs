//! The playing field: a fixed-size grid of locked cells.  The board tests a
//! piece's position for legality, commits (freezes) a piece into the grid,
//! and detects and removes completed rows.

use vstd::prelude::*;
use vstd::pervasive::VecAdditionalExecFns;

use crate::piece;
use crate::piece::{Cell, Piece, grid_view, occupied, shape_view};

verus! {

/// The mathematical value of a board: its dimensions and its grid of rows.
/// Row 0 is the bottom row; increasing row index is upward.
pub struct BoardView {
    pub width: int,
    pub height: int,
    pub grid: Seq<Seq<Cell>>,
}

/// A grid of `width x (height + hidden)` cells.  The hidden rows are a
/// buffer above the visible play field, as tall as the largest piece's
/// bounding box, so pieces can spawn and rotate above the visible top
/// without a special case.
pub struct Board {
    width: usize,
    height: usize,
    max_piece_size: usize,
    cells: Vec<Vec<Cell>>,
}

/// The number of hidden rows above the visible play field: the side length
/// of the largest piece's bounding box.
pub open spec fn spec_hidden_rows() -> int {
    4
}

/// A row entirely made of empty cells.
pub open spec fn empty_row(width: int) -> Seq<Cell> {
    Seq::new(width as nat, |j: int| Cell(None))
}

/// Every occupied cell of `shape`, placed at the signed offsets
/// `(row_offset, column_offset)`, lands on a board position whose row is in
/// `[0, row_limit)` and whose column is in `[0, width)`.
pub open spec fn piece_in_bounds(
    shape: Seq<Seq<Cell>>,
    row_offset: int,
    column_offset: int,
    row_limit: int,
    width: int,
) -> bool {
    forall|i: int, j: int|
        #![trigger occupied(shape, i, j)]
        0 <= i < shape.len() && 0 <= j < shape[i].len() && occupied(shape, i, j) ==> {
            &&& 0 <= i + row_offset < row_limit
            &&& 0 <= j + column_offset < width
        }
}

/// Every occupied cell of `shape`, placed at the signed offsets, lands on an
/// in-bounds board cell (rows below `row_limit`) that is still empty.
pub open spec fn piece_fits(
    grid: Seq<Seq<Cell>>,
    shape: Seq<Seq<Cell>>,
    row_offset: int,
    column_offset: int,
    row_limit: int,
    width: int,
) -> bool {
    forall|i: int, j: int|
        #![trigger occupied(shape, i, j)]
        0 <= i < shape.len() && 0 <= j < shape[i].len() && occupied(shape, i, j) ==> {
            &&& 0 <= i + row_offset < row_limit
            &&& 0 <= j + column_offset < width
            &&& grid[i + row_offset][j + column_offset].0 is None
        }
}

/// The grid after the occupied cells of `shape`, placed at the signed
/// offsets, are copied into it.
pub open spec fn frozen_grid(
    grid: Seq<Seq<Cell>>,
    shape: Seq<Seq<Cell>>,
    row_offset: int,
    column_offset: int,
) -> Seq<Seq<Cell>> {
    Seq::new(
        grid.len(),
        |i: int|
            Seq::new(
                grid[i].len(),
                |j: int|
                    if 0 <= i - row_offset < shape.len() && 0 <= j - column_offset
                        < shape[i - row_offset].len() && occupied(shape, i - row_offset, j - column_offset) {
                        shape[i - row_offset][j - column_offset]
                    } else {
                        grid[i][j]
                    },
            ),
    )
}

/// The part of `frozen_grid` written after the shape has been walked up to,
/// but not including, shape cell `(si, sj)` in row-major order.
spec fn frozen_grid_prefix(
    grid: Seq<Seq<Cell>>,
    shape: Seq<Seq<Cell>>,
    row_offset: int,
    column_offset: int,
    si: int,
    sj: int,
) -> Seq<Seq<Cell>> {
    Seq::new(
        grid.len(),
        |i: int|
            Seq::new(
                grid[i].len(),
                |j: int|
                    if 0 <= i - row_offset < shape.len() && 0 <= j - column_offset
                        < shape[i - row_offset].len() && occupied(shape, i - row_offset, j - column_offset)
                        && (i - row_offset < si || (i - row_offset == si && j - column_offset < sj)) {
                        shape[i - row_offset][j - column_offset]
                    } else {
                        grid[i][j]
                    },
            ),
    )
}

/// Every cell of the row is occupied.
pub open spec fn row_full(row: Seq<Cell>) -> bool {
    forall|j: int| 0 <= j < row.len() ==> (#[trigger] row[j]).0 is Some
}

/// The rows of the grid that are not full, in their original order.
pub open spec fn surviving_rows(grid: Seq<Seq<Cell>>) -> Seq<Seq<Cell>> {
    grid.filter(|row: Seq<Cell>| !row_full(row))
}

impl View for Board {
    type V = BoardView;

    closed spec fn view(&self) -> BoardView {
        BoardView {
            width: self.width as int,
            height: self.height as int,
            grid: grid_view(self.cells@),
        }
    }
}

impl Board {
    /// The grid has one row per board position, every row is `width` long,
    /// and the dimensions fit the machine.
    pub open spec fn wf(&self) -> bool {
        &&& self.spec_max_piece_size() == spec_hidden_rows()
        &&& 0 <= self@.width <= usize::MAX
        &&& 0 <= self@.height
        &&& self@.height + spec_hidden_rows() <= usize::MAX
        &&& self@.grid.len() == self@.height + spec_hidden_rows()
        &&& forall|i: int| 0 <= i < self@.grid.len() ==> (#[trigger] self@.grid[i]).len() == self@.width
    }

    pub closed spec fn spec_max_piece_size(&self) -> int {
        self.max_piece_size as int
    }

    /// A fresh board: `width` columns, `height` visible rows plus the hidden
    /// buffer, all cells empty.
    pub fn new(height: usize, width: usize) -> (r: Self)
        requires
            height + 4 <= usize::MAX,
        ensures
            r.wf(),
            r@.height == height,
            r@.width == width,
            r@.grid == Seq::new((height + 4) as nat, |i: int| empty_row(width as int)),
    {
        let max_piece_size: usize = 4;
        let rows = height + max_piece_size;
        let mut cells: Vec<Vec<Cell>> = Vec::new();
        let mut i: usize = 0;
        while i < rows
            invariant
                i <= rows,
                cells@.len() == i,
                forall|k: int| 0 <= k < i ==> (#[trigger] cells@[k])@ == empty_row(width as int),
            decreases rows - i,
        {
            let row = make_empty_row(width);
            cells.push(row);
            i = i + 1;
        }
        let r = Board { width, height, max_piece_size, cells };
        proof {
            assert(r@.grid =~~= Seq::new((height + 4) as nat, |i: int| empty_row(width as int)));
        }
        r
    }

    pub fn width(&self) -> (r: usize)
        ensures
            r as int == self@.width,
    {
        self.width
    }

    pub fn height(&self) -> (r: usize)
        ensures
            r as int == self@.height,
    {
        self.height
    }

    pub fn max_piece_size(&self) -> (r: usize)
        requires
            self.wf(),
        ensures
            r as int == spec_hidden_rows(),
    {
        self.max_piece_size
    }

    /// The full cell grid, row-major, bottom to top.
    pub fn cells(&self) -> (r: &Vec<Vec<Cell>>)
        ensures
            grid_view(r@) == self@.grid,
    {
        &self.cells
    }

    /// Consume the piece and copy every occupied cell of its shape into the
    /// corresponding board cell.  The caller must have established (through
    /// `is_fully_in`) that every occupied cell lands inside the visible
    /// field; freezing out of bounds is an invariant violation, not a normal
    /// game condition.
    pub fn freeze(&mut self, piece: Piece)
        requires
            old(self).wf(),
            piece.wf(),
            piece_in_bounds(
                piece.spec_shape(),
                piece.spec_row_offset(),
                piece.spec_column_offset(),
                old(self)@.height,
                old(self)@.width,
            ),
        ensures
            final(self).wf(),
            final(self)@.width == old(self)@.width,
            final(self)@.height == old(self)@.height,
            final(self)@.grid == frozen_grid(
                old(self)@.grid,
                piece.spec_shape(),
                piece.spec_row_offset(),
                piece.spec_column_offset(),
            ),
    {
        let ghost g0 = self@.grid;
        let ghost sv = piece.spec_shape();
        let ghost ro = piece.spec_row_offset();
        let ghost co = piece.spec_column_offset();
        proof {
            piece::lemma_shape_spec_facts(piece.spec_piece_type(), piece.spec_orientation());
            assert(grid_view(self.cells@) =~~= frozen_grid_prefix(g0, sv, ro, co, 0, 0));
        }
        let shape = piece.shape();
        let mut shape_row_index: usize = 0;
        while shape_row_index < shape.len()
            invariant
                piece.wf(),
                sv == piece.spec_shape(),
                ro == piece.spec_row_offset(),
                co == piece.spec_column_offset(),
                sv.len() <= 4,
                piece::is_square(sv),
                shape_view(shape) == sv,
                piece_in_bounds(sv, ro, co, self@.height, self@.width),
                forall|x: int| 0 <= x < g0.len() ==> (#[trigger] g0[x]).len() == self@.width,
                self.wf(),
                self@.width == old(self)@.width,
                self@.height == old(self)@.height,
                g0.len() == self@.grid.len(),
                shape_row_index <= sv.len(),
                self@.grid == frozen_grid_prefix(g0, sv, ro, co, shape_row_index as int, 0),
            decreases sv.len() - shape_row_index,
        {
            let ghost sri = shape_row_index as int;
            let row = &shape[shape_row_index];
            let mut shape_column_index: usize = 0;
            while shape_column_index < row.len()
                invariant
                    piece.wf(),
                    sv == piece.spec_shape(),
                    ro == piece.spec_row_offset(),
                    co == piece.spec_column_offset(),
                    sv.len() <= 4,
                    piece::is_square(sv),
                    shape_view(shape) == sv,
                    piece_in_bounds(sv, ro, co, self@.height, self@.width),
                    forall|x: int| 0 <= x < g0.len() ==> (#[trigger] g0[x]).len() == self@.width,
                    self.wf(),
                    self@.width == old(self)@.width,
                    self@.height == old(self)@.height,
                    g0.len() == self@.grid.len(),
                    sri == shape_row_index as int,
                    shape_row_index < sv.len(),
                    row@ == sv[sri],
                    shape_column_index <= row@.len(),
                    self@.grid == frozen_grid_prefix(g0, sv, ro, co, sri, shape_column_index as int),
                decreases row@.len() - shape_column_index,
            {
                let ghost sci = shape_column_index as int;
                let cell = row[shape_column_index];
                if cell.0.is_some() {
                    proof {
                        assert(occupied(sv, sri, sci));
                    }
                    let i = self.i(shape_row_index, piece.row_offset());
                    let j = self.j(shape_column_index, piece.column_offset());
                    proof {
                        assert(i as int == sri + ro);
                        assert(j as int == sci + co);
                        assert(i < self@.grid.len());
                        assert(self@.grid[i as int].len() == self@.width);
                        assert(self@.grid[i as int] == self.cells@[i as int]@);
                    }
                    let ghost cells_pre = self.cells@;
                    let ghost pre = frozen_grid_prefix(g0, sv, ro, co, sri, sci);
                    let ghost post = frozen_grid_prefix(g0, sv, ro, co, sri, sci + 1);
                    set_cell(&mut self.cells, i, j, cell);
                    proof {
                        assert(cell == sv[sri][sci]);
                        assert forall|x: int| 0 <= x < g0.len() implies #[trigger] grid_view(
                            self.cells@,
                        )[x] =~= post[x] by {
                            assert(grid_view(self.cells@)[x] == self.cells@[x]@);
                            assert(grid_view(cells_pre)[x] == cells_pre[x]@);
                            assert(grid_view(cells_pre)[x] == pre[x]);
                            if x == i as int {
                                assert(self.cells@[x]@ == cells_pre[x]@.update(j as int, cell));
                            } else {
                                assert(self.cells@[x]@ == cells_pre[x]@);
                            }
                        }
                        assert(grid_view(self.cells@) =~~= post);
                    }
                } else {
                    proof {
                        assert(grid_view(self.cells@) =~~= frozen_grid_prefix(
                            g0, sv, ro, co, sri, sci + 1));
                    }
                }
                shape_column_index = shape_column_index + 1;
            }
            proof {
                assert(grid_view(self.cells@) =~~= frozen_grid_prefix(g0, sv, ro, co, sri + 1, 0));
            }
            shape_row_index = shape_row_index + 1;
        }
        proof {
            assert(grid_view(self.cells@) =~~= frozen_grid(g0, sv, ro, co));
        }
    }

    /// Scan every row; remove each row whose cells are all occupied, keeping
    /// the surviving rows in their original order; append fresh empty rows
    /// at the top to restore the original row count.  Returns the removed
    /// row indices in increasing order (callers use the count for scoring).
    pub fn clear_lines(&mut self) -> (removed: Vec<usize>)
        requires
            old(self).wf(),
        ensures
            final(self).wf(),
            final(self)@.width == old(self)@.width,
            final(self)@.height == old(self)@.height,
            final(self)@.grid.len() == old(self)@.grid.len(),
            final(self)@.grid == surviving_rows(old(self)@.grid) + Seq::new(
                (old(self)@.grid.len() - surviving_rows(old(self)@.grid).len()) as nat,
                |k: int| empty_row(old(self)@.width),
            ),
            removed@.len() + surviving_rows(old(self)@.grid).len() == old(self)@.grid.len(),
            forall|k: int|
                0 <= k < removed@.len() ==> #[trigger] removed@[k] < old(self)@.grid.len()
                    && row_full(old(self)@.grid[removed@[k] as int]),
            forall|k1: int, k2: int|
                0 <= k1 < k2 < removed@.len() ==> removed@[k1] < removed@[k2],
            forall|i: int|
                0 <= i < old(self)@.grid.len() && row_full(#[trigger] old(self)@.grid[i])
                    ==> removed@.contains(i as usize),
    {
        let ghost g0 = self@.grid;
        let n = self.cells.len();
        let mut kept: Vec<Vec<Cell>> = Vec::new();
        let mut removed: Vec<usize> = Vec::new();
        let mut i: usize = 0;
        proof {
            assert(g0.take(0) =~= Seq::<Seq<Cell>>::empty());
            reveal_with_fuel(Seq::filter, 1);
            assert(grid_view(kept@) =~= surviving_rows(g0.take(0)));
        }
        while i < n
            invariant
                self.wf(),
                g0 == self@.grid,
                n == g0.len(),
                i <= n,
                grid_view(kept@) == surviving_rows(g0.take(i as int)),
                forall|k: int| 0 <= k < kept@.len() ==> (#[trigger] kept@[k])@.len() == self@.width,
                removed@.len() + kept@.len() == i,
                forall|k: int|
                    0 <= k < removed@.len() ==> #[trigger] removed@[k] < i
                        && row_full(g0[removed@[k] as int]),
                forall|k1: int, k2: int|
                    0 <= k1 < k2 < removed@.len() ==> removed@[k1] < removed@[k2],
                forall|x: int|
                    0 <= x < i && row_full(#[trigger] g0[x]) ==> removed@.contains(x as usize),
            decreases n - i,
        {
            let ghost removed_pre = removed@;
            let ghost kept_pre = kept@;
            let full = row_is_full(&self.cells[i]);
            if full {
                removed.push(i);
                proof {
                    assert(removed@ == removed_pre.push(i));
                    assert forall|x: int|
                        0 <= x < i + 1 && row_full(#[trigger] g0[x]) implies removed@.contains(
                        x as usize,
                    ) by {
                        if x < i {
                            let k = choose|k: int|
                                0 <= k < removed_pre.len() && removed_pre[k] == x as usize;
                            assert(removed@[k] == x as usize);
                        } else {
                            assert(removed@[removed_pre.len() as int] == i);
                        }
                    }
                }
            } else {
                let row = copy_row(&self.cells[i]);
                kept.push(row);
                proof {
                    assert(grid_view(kept@) =~= grid_view(kept_pre).push(g0[i as int]));
                }
            }
            proof {
                let t1 = g0.take(i as int + 1);
                assert(t1.drop_last() =~= g0.take(i as int));
                assert(t1.last() == g0[i as int]);
                reveal_with_fuel(Seq::filter, 2);
                assert(surviving_rows(t1) == if !row_full(g0[i as int]) {
                    surviving_rows(g0.take(i as int)).push(g0[i as int])
                } else {
                    surviving_rows(g0.take(i as int))
                });
            }
            i = i + 1;
        }
        proof {
            assert(g0.take(n as int) =~= g0);
            g0.lemma_filter_len(|row: Seq<Cell>| !row_full(row));
        }
        let ghost survivors = surviving_rows(g0);
        let width = self.width;
        while kept.len() < n
            invariant
                self.wf(),
                g0 == self@.grid,
                n == g0.len(),
                width as int == self@.width,
                survivors == surviving_rows(g0),
                survivors.len() <= kept@.len() <= n,
                forall|k: int| 0 <= k < kept@.len() ==> (#[trigger] kept@[k])@.len() == self@.width,
                grid_view(kept@) == survivors + Seq::new(
                    (kept@.len() - survivors.len()) as nat,
                    |k: int| empty_row(width as int),
                ),
            decreases n - kept@.len(),
        {
            let ghost kept_pre = kept@;
            let row = make_empty_row(width);
            kept.push(row);
            proof {
                assert(grid_view(kept@) =~= grid_view(kept_pre).push(empty_row(width as int)));
                assert(grid_view(kept@) =~~= survivors + Seq::new(
                    (kept@.len() - survivors.len()) as nat,
                    |k: int| empty_row(width as int),
                ));
            }
        }
        self.cells = kept;
        removed
    }

    fn i(&self, shape_row_index: usize, row_offset: i32) -> (r: usize)
        requires
            self.wf(),
            0 <= shape_row_index + row_offset < self@.height,
        ensures
            r as int == shape_row_index + row_offset,
    {
        Self::in_limit_index(shape_row_index, row_offset, self.height)
    }

    fn j(&self, shape_column_index: usize, column_offset: i32) -> (r: usize)
        requires
            self.wf(),
            0 <= shape_column_index + column_offset < self@.width,
        ensures
            r as int == shape_column_index + column_offset,
    {
        Self::in_limit_index(shape_column_index, column_offset, self.width)
    }

    fn in_limit_index(shape_index: usize, offset: i32, limit: usize) -> (r: usize)
        requires
            0 <= shape_index + offset < limit,
        ensures
            r as int == shape_index + offset,
    {
        let index = piece::index(shape_index, offset);
        match index {
            Some(i) => {
                if i < limit {
                    i
                } else {
                    vstd::pervasive::unreached()
                }
            },
            None => vstd::pervasive::unreached(),
        }
    }

    /// True iff some occupied cell of the piece's current shape, at its
    /// current offsets, lies outside the full grid (hidden rows included) or
    /// lands on an already occupied cell.
    pub fn is_colliding(&self, piece: &Piece) -> (r: bool)
        requires
            self.wf(),
            piece.wf(),
        ensures
            r == !piece_fits(
                self@.grid,
                piece.spec_shape(),
                piece.spec_row_offset(),
                piece.spec_column_offset(),
                self@.height + spec_hidden_rows(),
                self@.width,
            ),
    {
        let limit = self.height_with_hidden_top();
        !self.in_available_cells_below(piece, limit)
    }

    /// The same occupied-cell test, bounded to the visible height: used at
    /// lock time to decide game over (a piece locking partly above the
    /// visible field ends the game) versus freeze.
    pub fn is_fully_in(&self, piece: &Piece) -> (r: bool)
        requires
            self.wf(),
            piece.wf(),
        ensures
            r == piece_fits(
                self@.grid,
                piece.spec_shape(),
                piece.spec_row_offset(),
                piece.spec_column_offset(),
                self@.height,
                self@.width,
            ),
    {
        self.in_available_cells_below(piece, self.height)
    }

    fn height_with_hidden_top(&self) -> (r: usize)
        requires
            self.wf(),
        ensures
            r as int == self@.height + spec_hidden_rows(),
    {
        self.height + self.max_piece_size
    }

    fn in_available_cells_below(&self, piece: &Piece, height: usize) -> (r: bool)
        requires
            self.wf(),
            piece.wf(),
            height as int <= self@.height + spec_hidden_rows(),
        ensures
            r == piece_fits(
                self@.grid,
                piece.spec_shape(),
                piece.spec_row_offset(),
                piece.spec_column_offset(),
                height as int,
                self@.width,
            ),
    {
        let ghost sv = piece.spec_shape();
        let ghost ro = piece.spec_row_offset();
        let ghost co = piece.spec_column_offset();
        let ghost w = self@.width;
        let ghost g = self@.grid;
        proof {
            piece::lemma_shape_spec_facts(piece.spec_piece_type(), piece.spec_orientation());
        }
        let shape = piece.shape();
        let mut shape_row_index: usize = 0;
        while shape_row_index < shape.len()
            invariant
                self.wf(),
                piece.wf(),
                height as int <= self@.height + spec_hidden_rows(),
                sv == piece.spec_shape(),
                ro == piece.spec_row_offset(),
                co == piece.spec_column_offset(),
                w == self@.width,
                g == self@.grid,
                sv.len() <= 4,
                shape_view(shape) == sv,
                shape_row_index <= sv.len(),
                forall|i: int, j: int|
                    #![trigger occupied(sv, i, j)]
                    0 <= i < shape_row_index && 0 <= j < sv[i].len() && occupied(sv, i, j) ==> {
                        &&& 0 <= i + ro < height as int
                        &&& 0 <= j + co < w
                        &&& g[i + ro][j + co].0 is None
                    },
            decreases sv.len() - shape_row_index,
        {
            let row = &shape[shape_row_index];
            let ghost sri = shape_row_index as int;
            let mut shape_column_index: usize = 0;
            while shape_column_index < row.len()
                invariant
                    self.wf(),
                    piece.wf(),
                    height as int <= self@.height + spec_hidden_rows(),
                    sv == piece.spec_shape(),
                    ro == piece.spec_row_offset(),
                    co == piece.spec_column_offset(),
                    w == self@.width,
                    g == self@.grid,
                    sv.len() <= 4,
                    shape_view(shape) == sv,
                    sri == shape_row_index as int,
                    shape_row_index < sv.len(),
                    row@ == sv[sri],
                    shape_column_index <= row@.len(),
                    forall|j: int|
                        #![trigger occupied(sv, sri, j)]
                        0 <= j < shape_column_index && occupied(sv, sri, j) ==> {
                            &&& 0 <= sri + ro < height as int
                            &&& 0 <= j + co < w
                            &&& g[sri + ro][j + co].0 is None
                        },
                decreases row@.len() - shape_column_index,
            {
                let ghost sci = shape_column_index as int;
                if row[shape_column_index].0.is_some() {
                    proof {
                        assert(occupied(sv, sri, sci));
                    }
                    let oi = piece::index(shape_row_index, piece.row_offset());
                    let oj = piece::index(shape_column_index, piece.column_offset());
                    let (i, j) = match (oi, oj) {
                        (Some(i), Some(j)) => (i, j),
                        _ => {
                            proof {
                                assert(sri + ro < 0 || sci + co < 0);
                                assert(!piece_fits(g, sv, ro, co, height as int, w));
                            }
                            return false;
                        },
                    };
                    if i >= height || j >= self.width {
                        proof {
                            assert(i as int >= height as int || j as int >= w);
                            assert(!piece_fits(g, sv, ro, co, height as int, w));
                        }
                        return false;
                    }
                    proof {
                        assert(g[i as int] == self.cells@[i as int]@);
                    }
                    if self.cells[i][j].0.is_some() {
                        proof {
                            assert(g[sri + ro][sci + co].0 is Some);
                            assert(!piece_fits(g, sv, ro, co, height as int, w));
                        }
                        return false;
                    }
                }
                shape_column_index = shape_column_index + 1;
            }
            shape_row_index = shape_row_index + 1;
        }
        proof {
            assert(piece_fits(g, sv, ro, co, height as int, w));
        }
        true
    }
}

/// Replace cell `(i, j)` of a grid of rows, leaving every other cell as it
/// was.
fn set_cell(cells: &mut Vec<Vec<Cell>>, i: usize, j: usize, c: Cell)
    requires
        i < old(cells)@.len(),
        j < old(cells)@[i as int]@.len(),
    ensures
        final(cells)@.len() == old(cells)@.len(),
        forall|k: int|
            0 <= k < old(cells)@.len() && k != i ==> (#[trigger] final(cells)@[k])@ == old(cells)@[k]@,
        final(cells)@[i as int]@ == old(cells)@[i as int]@.update(j as int, c),
{
    let ghost row0 = cells@[i as int]@;
    let width = cells[i].len();
    let mut row: Vec<Cell> = Vec::new();
    let mut k: usize = 0;
    while k < width
        invariant
            i < cells@.len(),
            j < row0.len(),
            row0 == cells@[i as int]@,
            width == row0.len(),
            k <= width,
            row@.len() == k,
            forall|m: int| 0 <= m < k && m != j ==> #[trigger] row@[m] == row0[m],
            j < k ==> row@[j as int] == c,
        decreases width - k,
    {
        if k == j {
            row.push(c);
        } else {
            row.push(cells[i][k]);
        }
        k = k + 1;
    }
    proof {
        assert(row@ =~= row0.update(j as int, c));
    }
    cells.set(i, row);
}

/// A grid none of whose rows is full survives line clearing unchanged.
proof fn lemma_no_full_row_survives_all(grid: Seq<Seq<Cell>>)
    requires
        forall|i: int| 0 <= i < grid.len() ==> !row_full(#[trigger] grid[i]),
    ensures
        surviving_rows(grid) == grid,
    decreases grid.len(),
{
    reveal_with_fuel(Seq::filter, 2);
    if grid.len() == 0 {
        assert(surviving_rows(grid) =~= grid);
    } else {
        lemma_no_full_row_survives_all(grid.drop_last());
        assert(surviving_rows(grid) =~= grid);
    }
}

/// If exactly one row of the grid is full, the surviving rows are the grid
/// with that one row removed.
proof fn lemma_surviving_single_full(grid: Seq<Seq<Cell>>, r: int)
    requires
        0 <= r < grid.len(),
        row_full(grid[r]),
        forall|i: int| 0 <= i < grid.len() && i != r ==> !row_full(#[trigger] grid[i]),
    ensures
        surviving_rows(grid) == grid.remove(r),
    decreases grid.len(),
{
    reveal_with_fuel(Seq::filter, 2);
    if r == grid.len() - 1 {
        lemma_no_full_row_survives_all(grid.drop_last());
        assert(surviving_rows(grid) =~= grid.remove(r));
    } else {
        lemma_surviving_single_full(grid.drop_last(), r);
        assert(grid.remove(r).drop_last() =~= grid.drop_last().remove(r));
        assert(surviving_rows(grid) == surviving_rows(grid.drop_last()).push(grid.last()));
        assert(surviving_rows(grid) =~= grid.remove(r));
    }
}

/// Freezing a piece and then clearing lines, when the frozen grid has
/// exactly one full row `r`, removes exactly that row and no others: the
/// surviving rows are the frozen grid without row `r`, and since line
/// clearing pads the grid back with one fresh empty row, the row count is
/// the same before and after.
pub proof fn lemma_freeze_then_clear_single_row(
    grid: Seq<Seq<Cell>>,
    shape: Seq<Seq<Cell>>,
    row_offset: int,
    column_offset: int,
    r: int,
)
    requires
        0 <= r < frozen_grid(grid, shape, row_offset, column_offset).len(),
        row_full(frozen_grid(grid, shape, row_offset, column_offset)[r]),
        forall|i: int|
            0 <= i < grid.len() && i != r ==> !row_full(
                #[trigger] frozen_grid(grid, shape, row_offset, column_offset)[i],
            ),
    ensures
        surviving_rows(frozen_grid(grid, shape, row_offset, column_offset)) == frozen_grid(
            grid,
            shape,
            row_offset,
            column_offset,
        ).remove(r),
        surviving_rows(frozen_grid(grid, shape, row_offset, column_offset)).len() + 1
            == grid.len(),
{
    let fg = frozen_grid(grid, shape, row_offset, column_offset);
    lemma_surviving_single_full(fg, r);
}

/// The number of non-full rows among the first `i` rows of the grid: the
/// position a surviving row `i` takes after line clearing.
pub open spec fn survivors_before(grid: Seq<Seq<Cell>>, i: int) -> int
    decreases i,
{
    if i <= 0 {
        0
    } else {
        survivors_before(grid, i - 1) + (if !row_full(grid[i - 1]) {
            1int
        } else {
            0int
        })
    }
}

/// The surviving rows of a prefix of the grid, counted.
proof fn lemma_survivors_len_of_prefix(grid: Seq<Seq<Cell>>, k: int)
    requires
        0 <= k <= grid.len(),
    ensures
        surviving_rows(grid.take(k)).len() == survivors_before(grid, k),
    decreases k,
{
    reveal_with_fuel(Seq::filter, 2);
    if k == 0 {
        assert(grid.take(0) =~= Seq::<Seq<Cell>>::empty());
    } else {
        lemma_survivors_len_of_prefix(grid, k - 1);
        let t1 = grid.take(k);
        let prev = surviving_rows(grid.take(k - 1));
        assert(t1.drop_last() =~= grid.take(k - 1));
        assert(t1.last() == grid[k - 1]);
        assert(surviving_rows(t1) == if !row_full(grid[k - 1]) {
            prev.push(grid[k - 1])
        } else {
            prev
        });
    }
}

/// Within a prefix of the grid, the non-full row `i` survives at position
/// `survivors_before(grid, i)`.
proof fn lemma_survivor_position_prefix(grid: Seq<Seq<Cell>>, k: int, i: int)
    requires
        0 <= i < k <= grid.len(),
        !row_full(grid[i]),
    ensures
        survivors_before(grid, i) < survivors_before(grid, k),
        surviving_rows(grid.take(k)).index(survivors_before(grid, i)) == grid[i],
    decreases k,
{
    reveal_with_fuel(Seq::filter, 2);
    lemma_survivors_len_of_prefix(grid, k - 1);
    let t1 = grid.take(k);
    let prev = surviving_rows(grid.take(k - 1));
    assert(t1.drop_last() =~= grid.take(k - 1));
    assert(t1.last() == grid[k - 1]);
    assert(surviving_rows(t1) == if !row_full(grid[k - 1]) {
        prev.push(grid[k - 1])
    } else {
        prev
    });
    if i == k - 1 {
        assert(survivors_before(grid, i) == prev.len());
        assert(prev.push(grid[k - 1]).index(survivors_before(grid, i)) == grid[k - 1]);
    } else {
        lemma_survivor_position_prefix(grid, k - 1, i);
        lemma_survivors_before_monotone(grid, 0, i);
        if !row_full(grid[k - 1]) {
            assert(prev.push(grid[k - 1]).index(survivors_before(grid, i)) == prev.index(
                survivors_before(grid, i),
            ));
        }
    }
}

/// `survivors_before` is monotone, and strictly so past a non-full row.
pub proof fn lemma_survivors_before_monotone(grid: Seq<Seq<Cell>>, i: int, j: int)
    requires
        0 <= i <= j,
    ensures
        survivors_before(grid, i) <= survivors_before(grid, j),
        i < j && !row_full(grid[i]) ==> survivors_before(grid, i) < survivors_before(grid, j),
    decreases j - i,
{
    if i < j {
        lemma_survivors_before_monotone(grid, i + 1, j);
    }
}

/// Clearing lines removes every full row and preserves the relative order
/// of the surviving rows: after the clear, the row that stood at index `i`
/// stands at index `survivors_before(grid, i)`, a strictly increasing map
/// over the non-full rows.
pub proof fn lemma_clear_preserves_survivor_order(grid: Seq<Seq<Cell>>)
    ensures
        surviving_rows(grid).len() == survivors_before(grid, grid.len() as int),
        forall|i: int|
            0 <= i < grid.len() && !row_full(grid[i]) ==> surviving_rows(grid).index(
                #[trigger] survivors_before(grid, i)) == grid[i],
        forall|i: int, j: int|
            0 <= i < j < grid.len() && !row_full(grid[i]) && !row_full(grid[j])
                ==> survivors_before(grid, i) < survivors_before(grid, j),
{
    let n = grid.len() as int;
    assert(grid.take(n) =~= grid);
    lemma_survivors_len_of_prefix(grid, n);
    assert forall|i: int| 0 <= i < n && !row_full(grid[i]) implies surviving_rows(grid).index(
        #[trigger] survivors_before(grid, i),
    ) == grid[i] by {
        lemma_survivor_position_prefix(grid, n, i);
    }
    assert forall|i: int, j: int|
        0 <= i < j < n && !row_full(grid[i]) && !row_full(grid[j]) implies survivors_before(
        grid,
        i,
    ) < survivors_before(grid, j) by {
        lemma_survivors_before_monotone(grid, i, j);
    }
}

/// A piece whose occupied cells all land in bounds has its offsets within a
/// band around the field: used to rule out integer overflow on moves.
pub proof fn lemma_in_bounds_offset_band(
    shape: Seq<Seq<Cell>>,
    row_offset: int,
    column_offset: int,
    row_limit: int,
    width: int,
)
    requires
        piece_in_bounds(shape, row_offset, column_offset, row_limit, width),
        piece::has_occupied_cell(shape),
        piece::is_square(shape),
        shape.len() <= 4,
    ensures
        -4 < row_offset < row_limit,
        -4 < column_offset < width,
{
    let (i, j) = choose|i: int, j: int|
        0 <= i < shape.len() && 0 <= j < shape[i].len() && occupied(shape, i, j);
    assert(0 <= i + row_offset < row_limit);
    assert(0 <= j + column_offset < width);
}

/// Whether every cell of the row is occupied.
fn row_is_full(row: &Vec<Cell>) -> (r: bool)
    ensures
        r == row_full(row@),
{
    let mut j: usize = 0;
    while j < row.len()
        invariant
            j <= row@.len(),
            forall|k: int| 0 <= k < j ==> (#[trigger] row@[k]).0 is Some,
        decreases row@.len() - j,
    {
        if row[j].0.is_none() {
            return false;
        }
        j = j + 1;
    }
    true
}

/// An owned copy of a row of cells.
fn copy_row(row: &Vec<Cell>) -> (r: Vec<Cell>)
    ensures
        r@ == row@,
{
    let mut r: Vec<Cell> = Vec::new();
    let mut j: usize = 0;
    while j < row.len()
        invariant
            j <= row@.len(),
            r@.len() == j,
            forall|k: int| 0 <= k < j ==> #[trigger] r@[k] == row@[k],
        decreases row@.len() - j,
    {
        r.push(row[j]);
        j = j + 1;
    }
    proof {
        assert(r@ =~= row@);
    }
    r
}

/// A fresh all-empty row of `width` cells.
fn make_empty_row(width: usize) -> (r: Vec<Cell>)
    ensures
        r@ == empty_row(width as int),
{
    let mut row: Vec<Cell> = Vec::new();
    let mut j: usize = 0;
    while j < width
        invariant
            j <= width,
            row@.len() == j,
            forall|k: int| 0 <= k < j ==> (#[trigger] row@[k]).0 is None,
        decreases width - j,
    {
        row.push(Cell(None));
        j = j + 1;
    }
    proof {
        assert(row@ =~= empty_row(width as int));
    }
    row
}

} // verus!
