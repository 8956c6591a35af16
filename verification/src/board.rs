//! The grid: a fixed number of rows of a fixed number of cells.

use vstd::prelude::*;
use crate::art::Fill;
use crate::board_ops::{self, col_of, row_of, rows_of, window_of};
use crate::types::{CellFloor, CellObject, CellState, Coord, IndicatorType};

verus! {

/// A grid of `W` columns and `H` rows. Its size never changes.
#[derive(Debug)]
pub struct Board<const W: usize, const H: usize> {
    rows: Vec<[CellState; W]>,
}

/// The step in x and in y from a cell to its `i`-th neighbour. The eight
/// neighbours are counted row by row from the upper left corner, so that
/// neighbour `7 - i` lies opposite neighbour `i`.
pub open spec fn neighbor_offset(i: int) -> (int, int) {
    if i == 0 {
        (-1, -1)
    } else if i == 1 {
        (0, -1)
    } else if i == 2 {
        (1, -1)
    } else if i == 3 {
        (-1, 0)
    } else if i == 4 {
        (1, 0)
    } else if i == 5 {
        (-1, 1)
    } else if i == 6 {
        (0, 1)
    } else {
        (1, 1)
    }
}

/// The fertility that a byte of level data stands for: the byte read as a
/// signed number.
pub open spec fn fertility_of(byte: u8) -> i8 {
    if byte < 128 {
        byte as i8
    } else {
        (byte - 256) as i8
    }
}

/// The cell that one record of level data stands for: a material code, an
/// elevation and a fertility. A code that is not known gives the default
/// cell, whatever the other two bytes hold.
pub open spec fn decode_cell(code: u8, elev: u8, fertility: u8) -> CellState {
    let fertility = fertility_of(fertility);
    if code == 0 {
        CellState { floor: CellFloor::Empty, obj: CellObject::Nothing, elev, fertility }
    } else if code == 1 {
        CellState { floor: CellFloor::Water { depth: 1 }, obj: CellObject::Nothing, elev, fertility }
    } else if code == 2 {
        CellState { floor: CellFloor::Lava { depth: 1 }, obj: CellObject::Nothing, elev, fertility }
    } else if code == 3 {
        CellState { floor: CellFloor::Empty, obj: CellObject::Wall, elev, fertility }
    } else if code == 4 {
        CellState { floor: CellFloor::Empty, obj: CellObject::Border, elev, fertility }
    } else if code == 5 {
        CellState {
            floor: CellFloor::Seed { height: 1, dist: 0 },
            obj: CellObject::Nothing,
            elev,
            fertility,
        }
    } else if code == 6 {
        CellState {
            floor: CellFloor::Indicator(IndicatorType::Coin),
            obj: CellObject::Nothing,
            elev,
            fertility,
        }
    } else if code == 7 {
        CellState {
            floor: CellFloor::Indicator(IndicatorType::PM),
            obj: CellObject::Nothing,
            elev,
            fertility,
        }
    } else {
        CellState::empty()
    }
}

/// Decodes one record of level data.
pub fn cell_from_bytes(code: u8, elev: u8, fertility: u8) -> (cell: CellState)
    ensures
        cell == decode_cell(code, elev, fertility),
{
    let fertility: i8 = if fertility < 128 {
        fertility as i8
    } else {
        (fertility as i16 - 256) as i8
    };
    match code {
        0 => CellState { floor: CellFloor::Empty, obj: CellObject::Nothing, elev, fertility },
        1 => CellState {
            floor: CellFloor::Water { depth: 1 },
            obj: CellObject::Nothing,
            elev,
            fertility,
        },
        2 => CellState {
            floor: CellFloor::Lava { depth: 1 },
            obj: CellObject::Nothing,
            elev,
            fertility,
        },
        3 => CellState { floor: CellFloor::Empty, obj: CellObject::Wall, elev, fertility },
        4 => CellState { floor: CellFloor::Empty, obj: CellObject::Border, elev, fertility },
        5 => CellState {
            floor: CellFloor::Seed { height: 1, dist: 0 },
            obj: CellObject::Nothing,
            elev,
            fertility,
        },
        6 => CellState {
            floor: CellFloor::Indicator(IndicatorType::Coin),
            obj: CellObject::Nothing,
            elev,
            fertility,
        },
        7 => CellState {
            floor: CellFloor::Indicator(IndicatorType::PM),
            obj: CellObject::Nothing,
            elev,
            fertility,
        },
        _ => CellState::default(),
    }
}

/// The place of cell `(x, y)` among the cells of a grid `w` wide, counted row
/// by row, lies below the number of cells.
pub proof fn lemma_cell_index(x: int, y: int, w: int, h: int)
    requires
        0 <= x < w,
        0 <= y < h,
    ensures
        0 <= y * w + x < w * h,
        (y + 1) * w == y * w + w,
{
    assert(y * w + x < w * h) by (nonlinear_arith)
        requires
            0 <= x < w,
            0 <= y < h,
    ;
    assert(0 <= y * w) by (nonlinear_arith)
        requires
            0 <= w,
            0 <= y,
    ;
    assert((y + 1) * w == y * w + w) by (nonlinear_arith);
}

/// The eight cells around `(x, y)` on a grid, in the order of
/// `neighbor_offset`.
pub open spec fn around(grid: Seq<Seq<CellState>>, x: int, y: int) -> Seq<CellState> {
    Seq::new(8, |i: int| grid[y + neighbor_offset(i).1][x + neighbor_offset(i).0])
}

/// Whether the two grids have the same shape and every border cell of
/// `before` is the same cell in `after`.
pub open spec fn borders_kept(before: Seq<Seq<CellState>>, after: Seq<Seq<CellState>>) -> bool {
    &&& after.len() == before.len()
    &&& forall|y: int| 0 <= y < before.len() ==> (#[trigger] after[y]).len() == before[y].len()
    &&& forall|x: int, y: int|
        0 <= y < before.len() && 0 <= x < before[y].len() && before[y][x].obj is Border
            ==> #[trigger] after[y][x] == before[y][x]
}

/// Where the border cells are kept from each grid of a history to the next,
/// every grid of the history has the border cells of the first: what is a
/// border at the beginning is the same border cell for ever.
pub proof fn lemma_borders_kept_for_ever(history: Seq<Seq<Seq<CellState>>>, k: int)
    requires
        forall|i: int|
            0 <= i < history.len() - 1 ==> borders_kept(#[trigger] history[i], history[i + 1]),
        0 <= k < history.len(),
    ensures
        borders_kept(history[0], history[k]),
    decreases k,
{
    if k > 0 {
        lemma_borders_kept_for_ever(history, k - 1);
        assert(borders_kept(history[k - 1], history[k]));
        let first = history[0];
        let before = history[k - 1];
        let after = history[k];
        assert forall|x: int, y: int|
            0 <= y < first.len() && 0 <= x < first[y].len() && first[y][x].obj is Border implies #[trigger] after[y][x]
            == first[y][x] by {
            assert(before[y][x] == first[y][x]);
            assert(before[y].len() == first[y].len());
        }
        assert forall|y: int| 0 <= y < first.len() implies (#[trigger] after[y]).len() == first[y].len() by {
            assert(before[y].len() == first[y].len());
        }
    }
}

impl<const W: usize, const H: usize> Board<W, H> {
    #[verifier::type_invariant]
    spec fn inv(&self) -> bool {
        self.rows.len() == H
    }

    /// The cell in column `x` of row `y`.
    pub closed spec fn at(&self, x: int, y: int) -> CellState {
        self.rows[y][x]
    }

    /// The cell at `coord`.
    pub open spec fn cell(&self, coord: Coord) -> CellState {
        self.at(coord.x as int, coord.y as int)
    }

    /// Whether `coord` lies on this board.
    pub open spec fn holds(coord: Coord) -> bool {
        coord.x < W && coord.y < H
    }

    /// Whether `coord` lies on this board and off its outermost rows and
    /// columns.
    pub open spec fn interior(coord: Coord) -> bool {
        1 <= coord.x && coord.x + 1 < W && 1 <= coord.y && coord.y + 1 < H
    }

    /// The board that level data stands for: cell `(x, y)` is decoded from
    /// record `y * W + x` of the data.
    pub open spec fn read(bytes: Seq<u8>) -> Seq<Seq<CellState>> {
        Seq::new(
            H as nat,
            |y: int|
                Seq::new(
                    W as nat,
                    |x: int|
                        decode_cell(
                            bytes[3 * (y * W + x)],
                            bytes[3 * (y * W + x) + 1],
                            bytes[3 * (y * W + x) + 2],
                        ),
                ),
        )
    }

    /// This board with the cell at `(x, y)` replaced by `cell`.
    pub open spec fn with_cell(&self, x: int, y: int, cell: CellState) -> Seq<Seq<CellState>> {
        self@.update(y, self@[y].update(x, cell))
    }

    pub fn cell_at(&self, coord: Coord) -> (cell: CellState)
        requires
            Self::holds(coord),
        ensures
            cell == self.cell(coord),
    {
        proof {
            use_type_invariant(self);
        }
        board_ops::cell_at(self.rows.as_slice(), coord)
    }

    /// A reference to the cell at `coord`; what is written through it is the
    /// only change to the board.
    pub fn cell_at_mut(&mut self, coord: Coord) -> (cell: &mut CellState)
        requires
            Self::holds(coord),
        ensures
            *cell == old(self).cell(coord),
            forall|x: int, y: int|
                0 <= x < W && 0 <= y < H ==> #[trigger] final(self).at(x, y) == if x == coord.x && y
                    == coord.y {
                    *final(cell)
                } else {
                    old(self).at(x, y)
                },
    {
        proof {
            use_type_invariant(&*self);
        }
        &mut self.rows[coord.y][coord.x]
    }

    /// Replaces the cell at `coord` by `cell`.
    pub fn set_cell(&mut self, coord: Coord, cell: CellState)
        requires
            Self::holds(coord),
        ensures
            final(self)@ == old(self).with_cell(coord.x as int, coord.y as int, cell),
    {
        proof {
            use_type_invariant(&*self);
        }
        self.rows[coord.y][coord.x] = cell;
        proof {
            assert(self@ =~~= old(self).with_cell(coord.x as int, coord.y as int, cell));
        }
    }

    /// A board on which every cell is the empty cell with `fill` put on it.
    pub fn new_filled(fill: impl Fill) -> (board: Self)
        ensures
            forall|x: int, y: int| 0 <= x < W && 0 <= y < H ==> board.at(x, y) == fill.filled(CellState::empty()),
    {
        let mut cell = CellState { floor: CellFloor::Empty, obj: CellObject::Nothing, elev: 0, fertility: 0 };
        cell.update(fill);
        let mut rows: Vec<[CellState; W]> = Vec::new();
        let mut y: usize = 0;
        while y < H
            invariant
                y <= H,
                rows.len() == y,
                forall|i: int, j: int| 0 <= i < W && 0 <= j < y ==> rows[j][i] == cell,
            decreases H - y,
        {
            rows.push([cell; W]);
            y += 1;
        }
        Board { rows }
    }

    /// Reads a board from level data: one record of three bytes for each
    /// cell, row by row.
    pub fn from_bytes(bytes: &[u8]) -> (board: Self)
        requires
            bytes@.len() == 3 * (W * H),
        ensures
            board@ == Self::read(bytes@),
    {
        let mut rows: Vec<[CellState; W]> = Vec::new();
        let mut y: usize = 0;
        let mut i: usize = 0;
        while y < H
            invariant
                y <= H,
                rows.len() == y,
                i == 3 * (y * W),
                bytes@.len() == 3 * (W * H),
                forall|x: int, j: int| 0 <= x < W && 0 <= j < y ==> rows[j][x] == decode_cell(
                    bytes@[3 * (j * W + x)],
                    bytes@[3 * (j * W + x) + 1],
                    bytes@[3 * (j * W + x) + 2],
                ),
            decreases H - y,
        {
            let mut row = [CellState::default(); W];
            let mut x: usize = 0;
            while x < W
                invariant
                    x <= W,
                    y < H,
                    i == 3 * (y * W + x),
                    bytes@.len() == 3 * (W * H),
                    forall|k: int| 0 <= k < x ==> row[k] == decode_cell(
                        bytes@[3 * (y * W + k)],
                        bytes@[3 * (y * W + k) + 1],
                        bytes@[3 * (y * W + k) + 2],
                    ),
                decreases W - x,
            {
                proof {
                    lemma_cell_index(x as int, y as int, W as int, H as int);
                }
                row[x] = cell_from_bytes(bytes[i], bytes[i + 1], bytes[i + 2]);
                x += 1;
                i += 3;
            }
            proof {
                assert((y + 1) * W == y * W + W) by (nonlinear_arith);
            }
            rows.push(row);
            y += 1;
        }
        let board = Board { rows };
        proof {
            assert(board@ =~~= Self::read(bytes@));
        }
        board
    }

    /// All cells, row by row.
    pub fn cells(&self) -> (cells: Vec<CellState>)
        ensures
            cells@ == self@.flatten(),
    {
        let rows = self.rows.as_slice();
        proof {
            use_type_invariant(self);
            assert(self@ =~~= rows_of(rows));
        }
        board_ops::cells(rows)
    }

    /// The cells off the outermost rows and columns, row by row.
    pub fn inner_cells(&self) -> (cells: Vec<CellState>)
        requires
            W >= 2,
            H >= 2,
        ensures
            cells@ == window_of(self@, 1, W - 1, 1, H - 1).flatten(),
    {
        let rows = self.rows.as_slice();
        proof {
            use_type_invariant(self);
            assert(self@ =~~= rows_of(rows));
        }
        board_ops::inner_cells(rows)
    }

    /// The cells off the outermost columns, row by row.
    pub fn inner_cells_horiz(&self) -> (cells: Vec<CellState>)
        requires
            W >= 2,
        ensures
            cells@ == window_of(self@, 1, W - 1, 0, H as int).flatten(),
    {
        let rows = self.rows.as_slice();
        proof {
            use_type_invariant(self);
            assert(self@ =~~= rows_of(rows));
        }
        board_ops::inner_cells_horiz(rows)
    }

    /// The eight neighbours of the cell at `coord`.
    pub fn surrounding(&self, coord: Coord) -> (cells: [CellState; 8])
        requires
            Self::interior(coord),
        ensures
            cells@ == around(self@, coord.x as int, coord.y as int),
    {
        let rows = self.rows.as_slice();
        proof {
            use_type_invariant(self);
            assert(self@ =~~= rows_of(rows));
        }
        let cells = board_ops::neighbors(rows, coord);
        proof {
            assert(cells@ =~= around(self@, coord.x as int, coord.y as int));
        }
        cells
    }

    /// A reference to cell number `i` of all cells, counted row by row.
    pub fn cells_mut(&mut self, i: usize) -> (cell: &mut CellState)
        requires
            W > 0,
            row_of(i, W as int) < H,
        ensures
            *cell == old(self).at(col_of(i, W as int), row_of(i, W as int)),
            forall|x: int, y: int|
                0 <= x < W && 0 <= y < H ==> #[trigger] final(self).at(x, y) == if x == col_of(
                    i,
                    W as int,
                ) && y == row_of(i, W as int) {
                    *final(cell)
                } else {
                    old(self).at(x, y)
                },
    {
        self.cell_at_mut(Coord { x: i % W, y: i / W })
    }

    /// A reference to cell number `i` of the cells off the outermost rows and
    /// columns, counted row by row.
    pub fn inner_cells_mut(&mut self, i: usize) -> (cell: &mut CellState)
        requires
            W > 2,
            row_of(i, W - 2) + 2 < H,
        ensures
            *cell == old(self).at(col_of(i, W - 2) + 1, row_of(i, W - 2) + 1),
            forall|x: int, y: int|
                0 <= x < W && 0 <= y < H ==> #[trigger] final(self).at(x, y) == if x == col_of(
                    i,
                    W - 2,
                ) + 1 && y == row_of(i, W - 2) + 1 {
                    *final(cell)
                } else {
                    old(self).at(x, y)
                },
    {
        let inner = W - 2;
        self.cell_at_mut(Coord { x: i % inner + 1, y: i / inner + 1 })
    }

    /// A reference to cell number `i` of the cells off the outermost columns,
    /// counted row by row.
    pub fn inner_cells_horiz_mut(&mut self, i: usize) -> (cell: &mut CellState)
        requires
            W > 2,
            row_of(i, W - 2) < H,
        ensures
            *cell == old(self).at(col_of(i, W - 2) + 1, row_of(i, W - 2)),
            forall|x: int, y: int|
                0 <= x < W && 0 <= y < H ==> #[trigger] final(self).at(x, y) == if x == col_of(
                    i,
                    W - 2,
                ) + 1 && y == row_of(i, W - 2) {
                    *final(cell)
                } else {
                    old(self).at(x, y)
                },
    {
        let inner = W - 2;
        self.cell_at_mut(Coord { x: i % inner + 1, y: i / inner })
    }

    /// A copy of row `y`.
    pub fn row(&self, y: usize) -> (row: [CellState; W])
        requires
            y < H,
        ensures
            row@ == self@[y as int],
    {
        proof {
            use_type_invariant(self);
        }
        let row = self.rows[y];
        proof {
            assert(row@ =~= self@[y as int]);
        }
        row
    }

    /// Replaces row `y` by `row`.
    pub fn set_row(&mut self, y: usize, row: [CellState; W])
        requires
            y < H,
        ensures
            final(self)@ == old(self)@.update(y as int, row@),
    {
        proof {
            use_type_invariant(&*self);
        }
        self.rows[y] = row;
        proof {
            assert(self@ =~~= old(self)@.update(y as int, row@));
        }
    }
}

impl<const W: usize, const H: usize> View for Board<W, H> {
    type V = Seq<Seq<CellState>>;

    /// The rows of the board, each a sequence of `W` cells.
    open spec fn view(&self) -> Seq<Seq<CellState>> {
        Seq::new(H as nat, |y: int| Seq::new(W as nat, |x: int| self.at(x, y)))
    }
}

impl<const W: usize, const H: usize> Clone for Board<W, H> {
    fn clone(&self) -> (board: Self)
        ensures
            board@ == self@,
    {
        proof {
            use_type_invariant(self);
        }
        let mut rows: Vec<[CellState; W]> = Vec::new();
        let mut y: usize = 0;
        while y < H
            invariant
                y <= H,
                self.rows.len() == H,
                rows.len() == y,
                forall|j: int| 0 <= j < y ==> rows[j] == self.rows[j],
            decreases H - y,
        {
            rows.push(self.rows[y]);
            y += 1;
        }
        let board = Board { rows };
        proof {
            assert(board@ =~~= self@);
        }
        board
    }
}

} // verus!
