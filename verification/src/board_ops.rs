//! Reading and changing the cells of some rows of equal width, whatever the
//! cells are. A board is such rows; so is any stretch of its rows.

use vstd::prelude::*;
use crate::board::neighbor_offset;
use crate::types::Coord;

verus! {

/// The rows as sequences of cells.
pub open spec fn rows_of<T, const W: usize>(slice: &[[T; W]]) -> Seq<Seq<T>> {
    Seq::new(slice@.len(), |y: int| slice@[y]@)
}

/// The cells of columns `x0..x1` of rows `y0..y1`, each row by itself.
pub open spec fn window_of<T>(rows: Seq<Seq<T>>, x0: int, x1: int, y0: int, y1: int) -> Seq<Seq<T>> {
    Seq::new((y1 - y0) as nat, |y: int| Seq::new((x1 - x0) as nat, |x: int| rows[y0 + y][x0 + x]))
}

/// The eight cells around `(x, y)`, in the order of `neighbor_offset`.
pub open spec fn around_of<T>(rows: Seq<Seq<T>>, x: int, y: int) -> Seq<T> {
    Seq::new(8, |i: int| rows[y + neighbor_offset(i).1][x + neighbor_offset(i).0])
}

/// Every cell off the outermost rows and columns with the eight cells around
/// it, each row by itself.
pub open spec fn surrounded<T>(rows: Seq<Seq<T>>, width: int) -> Seq<Seq<(T, Seq<T>)>> {
    Seq::new(
        (rows.len() - 2) as nat,
        |y: int| Seq::new((width - 2) as nat, |x: int| (rows[y + 1][x + 1], around_of(rows, x + 1, y + 1))),
    )
}

pub fn cell_at<T: Copy, const W: usize>(slice: &[[T; W]], coord: Coord) -> (cell: T)
    requires
        coord.y < slice@.len(),
        coord.x < W,
    ensures
        cell == rows_of(slice)[coord.y as int][coord.x as int],
{
    slice[coord.y][coord.x]
}

/// Whether `after` is `before` with the cell in column `x` of row `y`
/// replaced by `cell`.
pub open spec fn replaced<T, const W: usize>(
    before: Seq<[T; W]>,
    after: Seq<[T; W]>,
    x: int,
    y: int,
    cell: T,
) -> bool {
    &&& after.len() == before.len()
    &&& forall|cx: int, cy: int|
        0 <= cy < before.len() && 0 <= cx < W ==> #[trigger] after[cy]@[cx] == if cx == x && cy == y {
            cell
        } else {
            before[cy]@[cx]
        }
}

/// A reference to the cell at `coord`; what is written through it is the
/// only change to the rows.
pub fn cell_at_mut<T, const W: usize>(slice: &mut [[T; W]], coord: Coord) -> (cell: &mut T)
    requires
        coord.y < old(slice)@.len(),
        coord.x < W,
    ensures
        *cell == old(slice)@[coord.y as int]@[coord.x as int],
        replaced(old(slice)@, final(slice)@, coord.x as int, coord.y as int, *final(cell)),
{
    &mut slice[coord.y][coord.x]
}

/// Copies the cells of columns `x0..x1` of rows `y0..y1`, row by row.
pub fn window<T: Copy, const W: usize>(
    slice: &[[T; W]],
    x0: usize,
    x1: usize,
    y0: usize,
    y1: usize,
) -> (cells: Vec<T>)
    requires
        x0 <= x1 <= W,
        y0 <= y1 <= slice@.len(),
    ensures
        cells@ == window_of(rows_of(slice), x0 as int, x1 as int, y0 as int, y1 as int).flatten(),
{
    let ghost all = window_of(rows_of(slice), x0 as int, x1 as int, y0 as int, y1 as int);
    let mut cells: Vec<T> = Vec::new();
    let mut y: usize = y0;
    assert(all.take(0) =~= Seq::<Seq<T>>::empty());
    while y < y1
        invariant
            y0 <= y <= y1 <= slice@.len(),
            x0 <= x1 <= W,
            all == window_of(rows_of(slice), x0 as int, x1 as int, y0 as int, y1 as int),
            cells@ == all.take(y - y0).flatten(),
        decreases y1 - y,
    {
        let ghost done = cells@;
        let ghost row = all[y - y0];
        let mut x: usize = x0;
        while x < x1
            invariant
                x0 <= x <= x1 <= W,
                y0 <= y < y1 <= slice@.len(),
                row == Seq::new((x1 - x0) as nat, |k: int| slice@[y as int]@[x0 + k]),
                cells@ == done + row.take(x - x0),
            decreases x1 - x,
        {
            cells.push(slice[y][x]);
            proof {
                assert(row.take(x + 1 - x0) =~= row.take(x - x0).push(row[x - x0]));
            }
            x += 1;
        }
        proof {
            assert(row.take(x1 - x0) =~= row);
            assert(all.take(y + 1 - y0) =~= all.take(y - y0).push(row));
            all.take(y - y0).lemma_flatten_push(row);
        }
        y += 1;
    }
    proof {
        assert(all.take(y1 - y0) =~= all);
    }
    cells
}

/// All cells, row by row.
pub fn cells<T: Copy, const W: usize>(slice: &[[T; W]]) -> (cells: Vec<T>)
    ensures
        cells@ == rows_of(slice).flatten(),
{
    proof {
        assert(rows_of(slice) =~~= window_of(rows_of(slice), 0, W as int, 0, slice@.len() as int));
    }
    window(slice, 0, W, 0, slice.len())
}

/// The cells off the outermost rows and columns, row by row.
pub fn inner_cells<T: Copy, const W: usize>(slice: &[[T; W]]) -> (cells: Vec<T>)
    requires
        W >= 2,
        slice@.len() >= 2,
    ensures
        cells@ == window_of(rows_of(slice), 1, W - 1, 1, slice@.len() - 1).flatten(),
{
    window(slice, 1, W - 1, 1, slice.len() - 1)
}

/// The cells off the outermost columns, row by row.
pub fn inner_cells_horiz<T: Copy, const W: usize>(slice: &[[T; W]]) -> (cells: Vec<T>)
    requires
        W >= 2,
    ensures
        cells@ == window_of(rows_of(slice), 1, W - 1, 0, slice@.len() as int).flatten(),
{
    window(slice, 1, W - 1, 0, slice.len())
}

/// The eight cells around the cell at `coord`.
pub fn neighbors<T: Copy, const W: usize>(slice: &[[T; W]], coord: Coord) -> (cells: [T; 8])
    requires
        1 <= coord.x,
        coord.x + 1 < W,
        1 <= coord.y,
        coord.y + 1 < slice@.len(),
    ensures
        cells@ == around_of(rows_of(slice), coord.x as int, coord.y as int),
{
    let Coord { x, y } = coord;
    let cells = [
        slice[y - 1][x - 1],
        slice[y - 1][x],
        slice[y - 1][x + 1],
        slice[y][x - 1],
        slice[y][x + 1],
        slice[y + 1][x - 1],
        slice[y + 1][x],
        slice[y + 1][x + 1],
    ];
    proof {
        assert(cells@ =~= around_of(rows_of(slice), x as int, y as int));
    }
    cells
}

/// Every cell off the outermost rows and columns with the eight cells around
/// it, row by row.
pub fn surrounding<T: Copy, const W: usize>(slice: &[[T; W]]) -> (cells: Vec<(T, [T; 8])>)
    requires
        W >= 2,
        slice@.len() >= 2,
    ensures
        cells@.map_values(|c: (T, [T; 8])| (c.0, c.1@)) == surrounded(rows_of(slice), W as int).flatten(),
{
    let ghost all = surrounded(rows_of(slice), W as int);
    let ghost strip = |c: (T, [T; 8])| (c.0, c.1@);
    let mut cells: Vec<(T, [T; 8])> = Vec::new();
    let h = slice.len();
    let mut y: usize = 1;
    assert(all.take(0) =~= Seq::<Seq<(T, Seq<T>)>>::empty());
    assert(cells@.map_values(strip) =~= Seq::<(T, Seq<T>)>::empty());
    while y < h - 1
        invariant
            1 <= y <= h - 1,
            h == slice@.len(),
            W >= 2,
            all == surrounded(rows_of(slice), W as int),
            strip == |c: (T, [T; 8])| (c.0, c.1@),
            cells@.map_values(strip) == all.take(y - 1).flatten(),
        decreases h - y,
    {
        let ghost done = cells@.map_values(strip);
        let ghost row = all[y - 1];
        let mut x: usize = 1;
        assert(cells@.map_values(strip) =~= done + row.take(0));
        while x < W - 1
            invariant
                1 <= x <= W - 1,
                1 <= y < h - 1,
                h == slice@.len(),
                strip == |c: (T, [T; 8])| (c.0, c.1@),
                row == Seq::new(
                    (W - 2) as nat,
                    |k: int| (slice@[y as int]@[k + 1], around_of(rows_of(slice), k + 1, y as int)),
                ),
                cells@.map_values(strip) == done + row.take(x - 1),
            decreases W - x,
        {
            let around = neighbors(slice, Coord { x, y });
            let ghost before = cells@;
            cells.push((slice[y][x], around));
            proof {
                assert(cells@.map_values(strip) =~= before.map_values(strip).push(
                    (slice@[y as int]@[x as int], around@),
                ));
                assert(row.take(x as int) =~= row.take(x - 1).push(row[x - 1]));
            }
            x += 1;
        }
        proof {
            assert(row.take(W - 2) =~= row);
            assert(all.take(y as int) =~= all.take(y - 1).push(row));
            all.take(y - 1).lemma_flatten_push(row);
        }
        y += 1;
    }
    proof {
        assert(all.take(h - 2) =~= all);
    }
    cells
}

/// The row of cell number `i` where the cells are counted row by row and a
/// row has `width` of them.
pub open spec fn row_of(i: usize, width: int) -> int {
    i as int / width
}

/// The column of cell number `i` where the cells are counted row by row and
/// a row has `width` of them.
pub open spec fn col_of(i: usize, width: int) -> int {
    i as int % width
}

/// A reference to cell number `i` of all cells, counted row by row.
pub fn cells_mut<T, const W: usize>(slice: &mut [[T; W]], i: usize) -> (cell: &mut T)
    requires
        W > 0,
        row_of(i, W as int) < old(slice)@.len(),
    ensures
        *cell == old(slice)@[row_of(i, W as int)]@[col_of(i, W as int)],
        replaced(old(slice)@, final(slice)@, col_of(i, W as int), row_of(i, W as int), *final(cell)),
{
    cell_at_mut(slice, Coord { x: i % W, y: i / W })
}

/// A reference to cell number `i` of the cells off the outermost rows and
/// columns, counted row by row.
pub fn inner_cells_mut<T, const W: usize>(slice: &mut [[T; W]], i: usize) -> (cell: &mut T)
    requires
        W > 2,
        row_of(i, W - 2) + 2 < old(slice)@.len(),
    ensures
        *cell == old(slice)@[row_of(i, W - 2) + 1]@[col_of(i, W - 2) + 1],
        replaced(old(slice)@, final(slice)@, col_of(i, W - 2) + 1, row_of(i, W - 2) + 1, *final(cell)),
{
    let inner = W - 2;
    let rows = slice.len();
    assert(i / inner + 2 < rows);
    cell_at_mut(slice, Coord { x: i % inner + 1, y: i / inner + 1 })
}

/// A reference to cell number `i` of the cells off the outermost columns,
/// counted row by row.
pub fn inner_cells_horiz_mut<T, const W: usize>(slice: &mut [[T; W]], i: usize) -> (cell: &mut T)
    requires
        W > 2,
        row_of(i, W - 2) < old(slice)@.len(),
    ensures
        *cell == old(slice)@[row_of(i, W - 2)]@[col_of(i, W - 2) + 1],
        replaced(old(slice)@, final(slice)@, col_of(i, W - 2) + 1, row_of(i, W - 2), *final(cell)),
{
    let inner = W - 2;
    cell_at_mut(slice, Coord { x: i % inner + 1, y: i / inner })
}

/// Cell number `i` of the cells off the outermost columns, counted row by
/// row, with its place: its own column, and its row counted from
/// `start_at_y`, the place of the first of the rows on the board they are
/// taken from.
pub fn inner_cells_horiz_mut_enumerate<T, const W: usize>(
    slice: &mut [[T; W]],
    start_at_y: usize,
    i: usize,
) -> (r: (Coord, &mut T))
    requires
        W > 2,
        row_of(i, W - 2) < old(slice)@.len(),
        row_of(i, W - 2) + start_at_y <= usize::MAX,
    ensures
        r.0.x == col_of(i, W - 2) + 1,
        r.0.y == row_of(i, W - 2) + start_at_y,
        *r.1 == old(slice)@[row_of(i, W - 2)]@[col_of(i, W - 2) + 1],
        replaced(old(slice)@, final(slice)@, col_of(i, W - 2) + 1, row_of(i, W - 2), *final(r.1)),
{
    let inner = W - 2;
    let x = i % inner;
    let y = i / inner;
    (Coord { x: x + 1, y: y + start_at_y }, cell_at_mut(slice, Coord { x: x + 1, y }))
}

} // verus!
