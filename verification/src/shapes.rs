//! The shapes that are drawn onto a board: points, lines, circles,
//! rectangles, letters and explosions. Each shape is a number of cells on
//! which a fill is put; what the board is afterwards is said over its rows.

use vstd::prelude::*;
use vstd::string::StrSliceExecFns;
use crate::art::{CellMatch, Fill};
use crate::board::{borders_kept, Board};
use crate::chance::random_range;
use crate::text::{char_code, glyph_cells, glyph_code, glyph_grid, lowered, to_lower, C_WIDTH};
use crate::types::{CellObject, CellState, Coord, Dir};

verus! {

/// The number of walks that make up an explosion.
pub const EXPLOSION_WALK_COUNT: usize = 30;

/// The greatest number of steps of one such walk.
pub const EXPLOSION_WALK_MAX_DIST: usize = 30;

/// Whether column `x` of row `y` is a cell of the grid.
pub open spec fn on_grid(grid: Seq<Seq<CellState>>, x: int, y: int) -> bool {
    0 <= y < grid.len() && 0 <= x < grid[y].len()
}

/// The grid with `fill` put on the cell at `(x, y)`; a place off the grid is
/// ignored.
pub open spec fn put<F: Fill>(grid: Seq<Seq<CellState>>, x: int, y: int, fill: F) -> Seq<
    Seq<CellState>,
> {
    if on_grid(grid, x, y) {
        grid.update(y, grid[y].update(x, fill.filled(grid[y][x])))
    } else {
        grid
    }
}

/// The grid with `fill` put on the cell at `(x, y)`, unless that cell is a
/// border or off the grid.
pub open spec fn put_off_border<F: Fill>(grid: Seq<Seq<CellState>>, x: int, y: int, fill: F) -> Seq<
    Seq<CellState>,
> {
    if on_grid(grid, x, y) && !(grid[y][x].obj is Border) {
        put(grid, x, y, fill)
    } else {
        grid
    }
}

/// The grid with `fill` put once on every cell of columns `x1..x2` of rows
/// `y1..y2`, and besides on columns `x1..xc` of row `y2`.
pub open spec fn block_drawn<F: Fill>(
    grid: Seq<Seq<CellState>>,
    x1: int,
    x2: int,
    y1: int,
    y2: int,
    xc: int,
    fill: F,
) -> Seq<Seq<CellState>> {
    Seq::new(
        grid.len(),
        |y: int|
            Seq::new(
                grid[y].len(),
                |x: int|
                    if (x1 <= x < x2 && y1 <= y < y2) || (x1 <= x < xc && y == y2) {
                        fill.filled(grid[y][x])
                    } else {
                        grid[y][x]
                    },
            ),
    )
}

pub open spec fn min_of(a: int, b: int) -> int {
    if a < b {
        a
    } else {
        b
    }
}

pub open spec fn max_of(a: int, b: int) -> int {
    if a < b {
        b
    } else {
        a
    }
}

/// The grid with `fill` put once on every cell of the rectangle between the
/// two corners. The corner with the greater coordinates is left out.
pub open spec fn rect_drawn<F: Fill>(grid: Seq<Seq<CellState>>, from: Coord, to: Coord, fill: F) -> Seq<
    Seq<CellState>,
> {
    block_drawn(
        grid,
        min_of(from.x as int, to.x as int),
        max_of(from.x as int, to.x as int),
        min_of(from.y as int, to.y as int),
        max_of(from.y as int, to.y as int),
        min_of(from.x as int, to.x as int),
        fill,
    )
}

/// The grid with a letter drawn at `(x, y)`: `fill` on its set cells, `empty`
/// on its other cells and on the column to its right.
pub open spec fn letter_drawn<F: Fill, E: Fill>(
    grid: Seq<Seq<CellState>>,
    letter: Seq<Seq<bool>>,
    width: int,
    x: int,
    y: int,
    fill: F,
    empty: E,
) -> Seq<Seq<CellState>> {
    Seq::new(
        grid.len(),
        |cy: int|
            Seq::new(
                grid[cy].len(),
                |cx: int|
                    if x <= cx <= x + width && y <= cy < y + letter.len() {
                        if cx < x + width && letter[cy - y][cx - x] {
                            fill.filled(grid[cy][cx])
                        } else {
                            empty.filled(grid[cy][cx])
                        }
                    } else {
                        grid[cy][cx]
                    },
            ),
    )
}

/// The grid with the first `count` characters of `text` drawn from `(x, y)`
/// to the right. A character without a letter is skipped and takes no room.
pub open spec fn text_drawn<F: Fill, E: Fill>(
    grid: Seq<Seq<CellState>>,
    text: Seq<char>,
    count: int,
    x: int,
    y: int,
    fill: F,
    empty: E,
) -> Seq<Seq<CellState>>
    decreases count,
{
    if count <= 0 {
        grid
    } else {
        let before = text_drawn(grid, text, count - 1, x, y, fill, empty);
        match glyph_code(lowered(text[count - 1])) {
            Some(code) => letter_drawn(
                before,
                glyph_cells(code),
                C_WIDTH as int,
                x + text_width(text, count - 1),
                y,
                fill,
                empty,
            ),
            None => before,
        }
    }
}

/// The room that the first `count` characters of `text` take when drawn.
pub open spec fn text_width(text: Seq<char>, count: int) -> int
    decreases count,
{
    if count <= 0 {
        0
    } else {
        text_width(text, count - 1) + if glyph_code(lowered(text[count - 1])) is Some {
            C_WIDTH + 1
        } else {
            0int
        }
    }
}

/// Whether `r` is the square root of `n`, rounded down.
pub open spec fn is_sqrt(r: int, n: int) -> bool {
    0 <= r && r * r <= n < (r + 1) * (r + 1)
}

/// The square root of `n`, rounded down.
pub open spec fn isqrt(n: int) -> int {
    choose|r: int| is_sqrt(r, n)
}

/// A number has one rounded-down square root.
pub proof fn lemma_sqrt_unique(r: int, q: int, n: int)
    requires
        is_sqrt(r, n),
        is_sqrt(q, n),
    ensures
        r == q,
{
    if r < q {
        assert((r + 1) * (r + 1) <= q * q) by (nonlinear_arith)
            requires
                0 <= r,
                r + 1 <= q,
        ;
    }
    if q < r {
        assert((q + 1) * (q + 1) <= r * r) by (nonlinear_arith)
            requires
                0 <= q,
                q + 1 <= r,
        ;
    }
}

/// The point that lies `num` parts of `den` on the way from `from` to `to`.
pub open spec fn lerp_at(from: int, to: int, num: int, den: int) -> int {
    (from * (den - num) + to * num) / den
}

/// The distance between two places, rounded down.
pub open spec fn dist_between(from: Coord, to: Coord) -> int {
    isqrt((from.x - to.x) * (from.x - to.x) + (from.y - to.y) * (from.y - to.y))
}

/// The `i`-th point of the line between two places.
pub open spec fn line_point(from: Coord, to: Coord, i: int) -> (int, int) {
    let n = dist_between(from, to) + 1;
    (lerp_at(from.x as int, to.x as int, i, n), lerp_at(from.y as int, to.y as int, i, n))
}

/// The grid with `fill` put on the first `count` points of the line between
/// two places, one after the other. A point that comes twice is filled twice.
pub open spec fn line_drawn<F: Fill>(
    grid: Seq<Seq<CellState>>,
    from: Coord,
    to: Coord,
    fill: F,
    count: int,
) -> Seq<Seq<CellState>>
    decreases count,
{
    if count <= 0 {
        grid
    } else {
        let before = line_drawn(grid, from, to, fill, count - 1);
        let (x, y) = line_point(from, to, count - 1);
        put(before, x, y, fill)
    }
}

/// Whether the line between two places can be worked out in machine numbers.
pub open spec fn line_fits(from: Coord, to: Coord) -> bool {
    let n = dist_between(from, to) + 1;
    &&& (from.x - to.x) * (from.x - to.x) + (from.y - to.y) * (from.y - to.y) < usize::MAX
    &&& max_of(from.x as int, to.x as int) * n <= usize::MAX
    &&& max_of(from.y as int, to.y as int) * n <= usize::MAX
}

/// The grid with the whole line between two places drawn: `fill` on each of
/// its points from the first to the last.
pub open spec fn full_line<F: Fill>(grid: Seq<Seq<CellState>>, from: Coord, to: Coord, fill: F) -> Seq<
    Seq<CellState>,
> {
    line_drawn(grid, from, to, fill, dist_between(from, to) + 2)
}

/// The distance between two places is the number whose square comes nearest
/// to the sum of the squares of their differences from below.
pub proof fn lemma_dist_is(from: Coord, to: Coord, d: int)
    requires
        is_sqrt(d, (from.x - to.x) * (from.x - to.x) + (from.y - to.y) * (from.y - to.y)),
    ensures
        dist_between(from, to) == d,
{
    let n = (from.x - to.x) * (from.x - to.x) + (from.y - to.y) * (from.y - to.y);
    lemma_sqrt_unique(d, isqrt(n), n);
}

/// The grid after a walk from `(x, y)` along `dirs`. The walk goes on over
/// cells of the kind that `fill` matches. On the first other cell it puts
/// `fill`, unless that cell is a border, and ends. It also ends, with nothing
/// done, where it leaves the grid or runs out of steps.
pub open spec fn walked<F: Fill + CellMatch>(
    grid: Seq<Seq<CellState>>,
    pos: Coord,
    dirs: Seq<Dir>,
    fill: F,
) -> Seq<Seq<CellState>>
    decreases dirs.len(),
{
    if dirs.len() == 0 || !on_grid(grid, pos.x as int, pos.y as int) {
        grid
    } else if !fill.vmatches_cell(grid[pos.y as int][pos.x as int]) {
        if grid[pos.y as int][pos.x as int].obj is Border {
            grid
        } else {
            put(grid, pos.x as int, pos.y as int, fill)
        }
    } else {
        walked(grid, pos.plus_wrapped(dirs[0]), dirs.drop_first(), fill)
    }
}

/// The grid after the walks `walks`, one after the other, each from
/// `center`.
pub open spec fn exploded<F: Fill + CellMatch>(
    grid: Seq<Seq<CellState>>,
    center: Coord,
    walks: Seq<Seq<Dir>>,
    fill: F,
) -> Seq<Seq<CellState>>
    decreases walks.len(),
{
    if walks.len() == 0 {
        grid
    } else {
        walked(exploded(grid, center, walks.drop_last(), fill), center, walks.last(), fill)
    }
}

/// Whether `after` is an explosion of `fill` on `grid`: thirty walks of
/// thirty steps from `center`, whichever way each of them went.
pub open spec fn is_explosion_of<F: Fill + CellMatch>(
    after: Seq<Seq<CellState>>,
    grid: Seq<Seq<CellState>>,
    center: Coord,
    fill: F,
) -> bool {
    exists|walks: Seq<Seq<Dir>>|
        walks.len() == EXPLOSION_WALK_COUNT && (forall|i: int|
            0 <= i < walks.len() ==> (#[trigger] walks[i]).len() == EXPLOSION_WALK_MAX_DIST)
            && after == #[trigger] exploded(grid, center, walks, fill)
}

/// A walk changes no border cell.
pub proof fn lemma_walk_keeps_borders<F: Fill + CellMatch>(
    grid: Seq<Seq<CellState>>,
    pos: Coord,
    dirs: Seq<Dir>,
    fill: F,
)
    ensures
        borders_kept(grid, walked(grid, pos, dirs, fill)),
    decreases dirs.len(),
{
    if dirs.len() == 0 || !on_grid(grid, pos.x as int, pos.y as int) {
    } else if !fill.vmatches_cell(grid[pos.y as int][pos.x as int]) {
    } else {
        lemma_walk_keeps_borders(grid, pos.plus_wrapped(dirs[0]), dirs.drop_first(), fill);
    }
}

/// An explosion changes no border cell.
pub proof fn lemma_explosion_keeps_borders<F: Fill + CellMatch>(
    grid: Seq<Seq<CellState>>,
    center: Coord,
    walks: Seq<Seq<Dir>>,
    fill: F,
)
    ensures
        borders_kept(grid, exploded(grid, center, walks, fill)),
    decreases walks.len(),
{
    if walks.len() > 0 {
        let before = exploded(grid, center, walks.drop_last(), fill);
        lemma_explosion_keeps_borders(grid, center, walks.drop_last(), fill);
        lemma_walk_keeps_borders(before, center, walks.last(), fill);
    }
}

/// A grid of cells on which single cells can be changed.
pub trait Canvas: Sized {
    /// The rows of the grid.
    spec fn grid(&self) -> Seq<Seq<CellState>>;

    /// Puts `fill` on the cell at `pt`. A place off the grid is ignored.
    fn pt<F: Fill>(&mut self, pt: Coord, fill: F)
        ensures
            final(self).grid() == put(old(self).grid(), pt.x as int, pt.y as int, fill),
    ;
}

/// A board that shapes can be drawn on.
pub trait BoardArt: Canvas {
    /// Draws a line.
    fn line<F: Fill + Copy>(&mut self, from: Coord, to: Coord, fill: F)
        requires
            line_fits(from, to),
        ensures
            final(self).grid() == line_drawn(
                old(self).grid(),
                from,
                to,
                fill,
                dist_between(from, to) + 2,
            ),
    ;

    /// Draws a circle.
    fn circle<F: Fill + Copy>(&mut self, center: Coord, radius: usize, fill: F)
        requires
            radius * radius < usize::MAX,
            center.x + 2 * radius + 1 <= usize::MAX,
            center.y + 2 * radius + 1 <= usize::MAX,
        ensures
            final(self).grid() == circle_drawn(
                old(self).grid(),
                center,
                radius as int,
                fill,
                circle_steps(radius as int),
            ),
    ;

    /// Fills a rectangle.
    fn rect<F: Fill + Copy>(&mut self, from: Coord, to: Coord, fill: F)
        ensures
            final(self).grid() == rect_drawn(old(self).grid(), from, to, fill),
    ;

    /// Writes `text` from `coord` to the right.
    fn text<F: Fill + Copy, E: Fill + Copy>(&mut self, text: &str, coord: Coord, fill: F, empty: E)
        requires
            coord.x + 4 * (text@.len() + 1) <= usize::MAX,
            coord.y + 5 <= usize::MAX,
        ensures
            final(self).grid() == text_drawn(
                old(self).grid(),
                text@,
                text@.len() as int,
                coord.x as int,
                coord.y as int,
                fill,
                empty,
            ),
    ;

    /// Scatters `fill` around `center`.
    fn explosion<F: Fill + CellMatch + Copy>(&mut self, center: Coord, fill: F)
        ensures
            is_explosion_of(final(self).grid(), old(self).grid(), center, fill),
    ;
}

/// Draws a letter onto a board: `fill` on its set cells, `empty` on its other
/// cells and on the column to its right.
pub fn write_letter<const C_W: usize, const C_H: usize, B: Canvas, F: Fill + Copy, E: Fill + Copy>(
    grid: &[[bool; C_W]; C_H],
    x: usize,
    y: usize,
    board: &mut B,
    fill: F,
    empty: E,
)
    requires
        x + C_W <= usize::MAX,
        y + C_H <= usize::MAX,
    ensures
        final(board).grid() == letter_drawn(
            old(board).grid(),
            Seq::new(C_H as nat, |dy: int| grid@[dy]@),
            C_W as int,
            x as int,
            y as int,
            fill,
            empty,
        ),
{
    let ghost before = board.grid();
    let ghost letter = Seq::new(C_H as nat, |dy: int| grid@[dy]@);
    let mut dy: usize = 0;
    assert(board.grid() =~~= letter_drawn(before, letter.take(0), C_W as int, x as int, y as int, fill, empty));
    while dy < C_H
        invariant
            dy <= C_H,
            x + C_W <= usize::MAX,
            y + C_H <= usize::MAX,
            letter == Seq::new(C_H as nat, |dy: int| grid@[dy]@),
            board.grid() == letter_drawn(
                before,
                letter.take(dy as int),
                C_W as int,
                x as int,
                y as int,
                fill,
                empty,
            ),
        decreases C_H - dy,
    {
        let ghost rows_done = board.grid();
        let mut dx: usize = 0;
        while dx < C_W
            invariant
                dx <= C_W,
                dy < C_H,
                x + C_W <= usize::MAX,
                y + C_H <= usize::MAX,
                letter == Seq::new(C_H as nat, |dy: int| grid@[dy]@),
                rows_done == letter_drawn(
                    before,
                    letter.take(dy as int),
                    C_W as int,
                    x as int,
                    y as int,
                    fill,
                    empty,
                ),
                board.grid().len() == before.len(),
                forall|cy: int| 0 <= cy < before.len() ==> (#[trigger] board.grid()[cy]).len() == before[cy].len(),
                forall|cx: int, cy: int|
                    on_grid(before, cx, cy) ==> #[trigger] board.grid()[cy][cx] == if cy == y + dy && x
                        <= cx < x + dx {
                        if letter[dy as int][cx - x] {
                            fill.filled(before[cy][cx])
                        } else {
                            empty.filled(before[cy][cx])
                        }
                    } else {
                        rows_done[cy][cx]
                    },
            decreases C_W - dx,
        {
            if grid[dy][dx] {
                board.pt(Coord { x: x + dx, y: y + dy }, fill);
            } else {
                board.pt(Coord { x: x + dx, y: y + dy }, empty);
            }
            dx += 1;
        }
        board.pt(Coord { x: x + C_W, y: y + dy }, empty);
        proof {
            assert(board.grid() =~~= letter_drawn(
                before,
                letter.take(dy + 1),
                C_W as int,
                x as int,
                y as int,
                fill,
                empty,
            ));
        }
        dy += 1;
    }
    proof {
        assert(letter.take(C_H as int) =~= letter);
    }
}

/// Writes `chars` onto a board from `coord` to the right, each letter 3 cells
/// wide with one cell of room behind it.
pub fn write_chars<B: Canvas, F: Fill + Copy, E: Fill + Copy>(
    board: &mut B,
    chars: &Vec<char>,
    coord: Coord,
    fill: F,
    empty: E,
)
    requires
        coord.x + 4 * (chars@.len() + 1) <= usize::MAX,
        coord.y + 5 <= usize::MAX,
    ensures
        final(board).grid() == text_drawn(
            old(board).grid(),
            chars@,
            chars@.len() as int,
            coord.x as int,
            coord.y as int,
            fill,
            empty,
        ),
{
    let n = chars.len();
    let mut x = coord.x;
    let mut i: usize = 0;
    while i < n
        invariant
            i <= n,
            n == chars@.len(),
            coord.x + 4 * (chars@.len() + 1) <= usize::MAX,
            coord.y + 5 <= usize::MAX,
            x == coord.x + text_width(chars@, i as int),
            x <= coord.x + 4 * i,
            board.grid() == text_drawn(
                old(board).grid(),
                chars@,
                i as int,
                coord.x as int,
                coord.y as int,
                fill,
                empty,
            ),
        decreases n - i,
    {
        let c = to_lower(chars[i]);
        if let Some(code) = char_code(c) {
            let letter = glyph_grid(code);
            proof {
                assert(Seq::new(5, |dy: int| letter@[dy]@) =~= glyph_cells(code));
            }
            write_letter(&letter, x, coord.y, board, fill, empty);
            x += C_WIDTH + 1;
        }
        i += 1;
    }
}

/// The smaller and the larger of two numbers, in this order.
pub fn minmax(a: usize, b: usize) -> (r: (usize, usize))
    ensures
        r.0 == min_of(a as int, b as int),
        r.1 == max_of(a as int, b as int),
{
    if a < b {
        (a, b)
    } else {
        (b, a)
    }
}

pub fn lerp(from: usize, to: usize, num: usize, den: usize) -> (r: usize)
    requires
        0 < den,
        num <= den,
        from * den <= usize::MAX,
        to * den <= usize::MAX,
    ensures
        r == lerp_at(from as int, to as int, num as int, den as int),
{
    proof {
        assert(from * (den - num) <= from * den) by (nonlinear_arith)
            requires
                0 <= num <= den,
                0 <= from,
        ;
        assert(to * num <= to * den) by (nonlinear_arith)
            requires
                0 <= num <= den,
                0 <= to,
        ;
        assert(from * (den - num) + to * num <= max_of(from as int, to as int) * den)
            by (nonlinear_arith)
            requires
                0 <= num <= den,
                0 <= from,
                0 <= to,
        ;
    }
    (from * (den - num) + to * num) / den
}

pub fn lerp_coord(from: Coord, to: Coord, num: usize, den: usize) -> (c: Coord)
    requires
        0 < den,
        num <= den,
        max_of(from.x as int, to.x as int) * den <= usize::MAX,
        max_of(from.y as int, to.y as int) * den <= usize::MAX,
    ensures
        c.x == lerp_at(from.x as int, to.x as int, num as int, den as int),
        c.y == lerp_at(from.y as int, to.y as int, num as int, den as int),
{
    proof {
        assert(from.x * den <= max_of(from.x as int, to.x as int) * den) by (nonlinear_arith)
            requires
                0 < den,
        ;
        assert(to.x * den <= max_of(from.x as int, to.x as int) * den) by (nonlinear_arith)
            requires
                0 < den,
        ;
        assert(from.y * den <= max_of(from.y as int, to.y as int) * den) by (nonlinear_arith)
            requires
                0 < den,
        ;
        assert(to.y * den <= max_of(from.y as int, to.y as int) * den) by (nonlinear_arith)
            requires
                0 < den,
        ;
    }
    Coord { x: lerp(from.x, to.x, num, den), y: lerp(from.y, to.y, num, den) }
}

/// The distance between two places, rounded down.
pub fn dist(from: Coord, to: Coord) -> (d: usize)
    requires
        (from.x - to.x) * (from.x - to.x) + (from.y - to.y) * (from.y - to.y) < usize::MAX,
    ensures
        d == dist_between(from, to),
        d + 2 <= usize::MAX,
{
    let dx = if from.x < to.x {
        to.x - from.x
    } else {
        from.x - to.x
    };
    let dy = if from.y < to.y {
        to.y - from.y
    } else {
        from.y - to.y
    };
    proof {
        assert(dx * dx == (from.x - to.x) * (from.x - to.x)) by (nonlinear_arith)
            requires
                dx == from.x - to.x || dx == to.x - from.x,
        ;
        assert(dy * dy == (from.y - to.y) * (from.y - to.y)) by (nonlinear_arith)
            requires
                dy == from.y - to.y || dy == to.y - from.y,
        ;
        assert(0 <= dx * dx && 0 <= dy * dy) by (nonlinear_arith);
    }
    let n: usize = dx * dx + dy * dy;
    sqrt_floor(n)
}

/// The square root of `n`, rounded down.
pub fn sqrt_floor(n: usize) -> (r: usize)
    requires
        n < usize::MAX,
    ensures
        r == isqrt(n as int),
        r + 2 <= usize::MAX,
{
    let mut r: usize = 0;
    loop
        invariant
            r * r <= n,
            n < usize::MAX,
        ensures
            n < (r + 1) * (r + 1),
        decreases n - r,
    {
        proof {
            assert(r <= n) by (nonlinear_arith)
                requires
                    r * r <= n,
                    0 <= r,
            ;
            assert(r < 0x1_0000_0000 && (r + 1) * (r + 1) <= 0x1_0000_0000_0000_0000) by (nonlinear_arith)
                requires
                    r * r <= n,
                    n < 0x1_0000_0000_0000_0000,
                    0 <= r,
            ;
        }
        let next: u128 = (r as u128 + 1) * (r as u128 + 1);
        if next > n as u128 {
            break ;
        }
        proof {
            assert(r < n) by (nonlinear_arith)
                requires
                    (r + 1) * (r + 1) <= n,
                    0 <= r,
            ;
        }
        r += 1;
    }
    proof {
        assert(is_sqrt(r as int, n as int));
        lemma_sqrt_unique(r as int, isqrt(n as int), n as int);
        assert(r + 2 <= usize::MAX) by (nonlinear_arith)
            requires
                r * r <= n,
                n < usize::MAX,
                usize::MAX >= 0xffff_ffff,
                0 <= r,
        ;
    }
    r
}

/// The square root of `n`, rounded to the nearest whole number.
pub open spec fn round_sqrt(n: int) -> int {
    let k = isqrt(n);
    if n > k * k + k {
        k + 1
    } else {
        k
    }
}

/// The square root of `n`, rounded to the nearest whole number.
pub fn sqrt_round(n: usize) -> (r: usize)
    requires
        n < usize::MAX,
    ensures
        r == round_sqrt(n as int),
        r * r <= 2 * n + 1,
{
    let k = sqrt_floor(n);
    proof {
        lemma_sqrt_exists(n as int);
        assert(k <= n && 0 <= k * k) by (nonlinear_arith)
            requires
                k * k <= n,
                0 <= k,
        ;
        assert((k + 1) * (k + 1) == k * k + 2 * k + 1) by (nonlinear_arith);
    }
    if n - k * k > k {
        k + 1
    } else {
        k
    }
}

/// Every number from 0 on has a rounded-down square root.
pub proof fn lemma_sqrt_exists(n: int)
    requires
        0 <= n,
    ensures
        is_sqrt(isqrt(n), n),
    decreases n,
{
    if n == 0 {
        assert(is_sqrt(0, 0));
    } else {
        lemma_sqrt_exists(n - 1);
        let r = isqrt(n - 1);
        if (r + 1) * (r + 1) <= n {
            assert(n < (r + 2) * (r + 2)) by (nonlinear_arith)
                requires
                    n - 1 < (r + 1) * (r + 1),
                    0 <= r,
            ;
            assert(is_sqrt(r + 1, n));
        } else {
            assert(is_sqrt(r, n));
        }
    }
}

/// The grid with `fill` put on the points of a circle around `(cx, cy)` that
/// lie `x` along one axis and `y` along the other: two of them below and to
/// the right of the centre, and the six that mirror these where they do not
/// fall on or before the first row or column.
pub open spec fn octant_drawn<F: Fill>(
    grid: Seq<Seq<CellState>>,
    cx: int,
    cy: int,
    x: int,
    y: int,
    fill: F,
) -> Seq<Seq<CellState>> {
    let g = put(grid, cx + x, cy + y, fill);
    let g = put(g, cx + y, cy + x, fill);
    let g = if x < cx {
        put(g, cx - x, cy + y, fill)
    } else {
        g
    };
    let g = if y < cx {
        put(g, cx - y, cy + x, fill)
    } else {
        g
    };
    let g = if x < cy {
        put(g, cx + y, cy - x, fill)
    } else {
        g
    };
    let g = if y < cy {
        put(g, cx + x, cy - y, fill)
    } else {
        g
    };
    let g = if x < cx && y < cy {
        put(g, cx - x, cy - y, fill)
    } else {
        g
    };
    if y < cx && x < cy {
        put(g, cx - y, cy - x, fill)
    } else {
        g
    }
}

/// How far from the axis the circle of the given radius lies at height `y`.
pub open spec fn circle_x(radius: int, y: int) -> int {
    round_sqrt(radius * radius - y * y)
}

/// The number of heights at which a circle is worked out: up to where it has
/// turned by an eighth.
pub open spec fn circle_steps(radius: int) -> int {
    isqrt(radius * radius / 2) + 1
}

/// The grid with the points of a circle drawn for the heights below `count`.
pub open spec fn circle_drawn<F: Fill>(
    grid: Seq<Seq<CellState>>,
    center: Coord,
    radius: int,
    fill: F,
    count: int,
) -> Seq<Seq<CellState>>
    decreases count,
{
    if count <= 0 {
        grid
    } else {
        octant_drawn(
            circle_drawn(grid, center, radius, fill, count - 1),
            center.x as int,
            center.y as int,
            circle_x(radius, count - 1),
            count - 1,
            fill,
        )
    }
}

/// `count` random directions.
pub fn random_dirs(count: usize) -> (dirs: Vec<Dir>)
    ensures
        dirs@.len() == count,
{
    let mut dirs: Vec<Dir> = Vec::new();
    let mut i: usize = 0;
    while i < count
        invariant
            i <= count,
            dirs@.len() == i,
        decreases count - i,
    {
        dirs.push(Dir::from_draw(random_range(0, 4)));
        i += 1;
    }
    dirs
}

/// Walks from `from` along `dirs` over cells of the kind that `fill` matches,
/// and puts `fill` on the first other cell, unless that is a border.
pub fn walk_along<const W: usize, const H: usize, F: Fill + CellMatch + Copy>(
    board: &mut Board<W, H>,
    from: Coord,
    dirs: &Vec<Dir>,
    fill: F,
)
    ensures
        final(board)@ == walked(old(board)@, from, dirs@, fill),
{
    let mut pos = from;
    let mut i: usize = 0;
    assert(dirs@.skip(0) =~= dirs@);
    while i < dirs.len()
        invariant
            i <= dirs@.len(),
            board@ == old(board)@,
            walked(old(board)@, from, dirs@, fill) == walked(board@, pos, dirs@.skip(i as int), fill),
        decreases dirs@.len() - i,
    {
        if !(pos.x < W && pos.y < H) {
            return ;
        }
        let cell = board.cell_at(pos);
        if !fill.vmatches(&cell) {
            if !CellObject::Border.vmatches(&cell) {
                board.pt(pos, fill);
            }
            return ;
        }
        proof {
            assert(dirs@.skip(i as int).drop_first() =~= dirs@.skip(i + 1));
        }
        pos = pos.add_wrapped(dirs[i]);
        i += 1;
    }
}

impl<const W: usize, const H: usize> Canvas for Board<W, H> {
    open spec fn grid(&self) -> Seq<Seq<CellState>> {
        self@
    }

    fn pt<F: Fill>(&mut self, pt: Coord, fill: F) {
        if pt.x < W && pt.y < H {
            let cell = self.cell_at_mut(pt);
            cell.update(fill);
            proof {
                assert(self@ =~~= put(old(self)@, pt.x as int, pt.y as int, fill));
            }
        }
    }
}

impl<const W: usize, const H: usize> BoardArt for Board<W, H> {
    fn line<F: Fill + Copy>(&mut self, from: Coord, to: Coord, fill: F) {
        let n = dist(from, to) + 1;
        let mut i: usize = 0;
        while i <= n
            invariant
                i <= n + 1,
                n == dist_between(from, to) + 1,
                1 <= n,
                n + 1 <= usize::MAX,
                line_fits(from, to),
                self@ == line_drawn(old(self)@, from, to, fill, i as int),
            decreases n + 1 - i,
        {
            let coord = lerp_coord(from, to, i, n);
            self.pt(coord, fill);
            i += 1;
        }
    }

    fn circle<F: Fill + Copy>(&mut self, center: Coord, radius: usize, fill: F) {
        proof {
            assert(0 <= radius * radius) by (nonlinear_arith);
        }
        let r2 = radius * radius;
        let ylim = sqrt_floor(r2 / 2) + 1;
        proof {
            lemma_sqrt_exists(r2 as int / 2);
            assert(ylim - 1 <= radius) by (nonlinear_arith)
                requires
                    (ylim - 1) * (ylim - 1) <= r2 / 2,
                    r2 == radius * radius,
                    0 <= radius,
                    0 <= ylim - 1,
            ;
        }
        let mut y: usize = 0;
        while y < ylim
            invariant
                y <= ylim,
                ylim == circle_steps(radius as int),
                ylim - 1 <= radius,
                r2 == radius * radius,
                r2 < usize::MAX,
                center.x + 2 * radius + 1 <= usize::MAX,
                center.y + 2 * radius + 1 <= usize::MAX,
                self@ == circle_drawn(old(self)@, center, radius as int, fill, y as int),
            decreases ylim - y,
        {
            proof {
                assert(y * y <= r2) by (nonlinear_arith)
                    requires
                        0 <= y <= radius,
                        r2 == radius * radius,
                ;
            }
            let x = sqrt_round(r2 - y * y);
            proof {
                assert(x <= 2 * radius + 1) by (nonlinear_arith)
                    requires
                        x * x <= 2 * (r2 - y * y) + 1,
                        r2 == radius * radius,
                        0 <= y * y,
                        0 <= x,
                        0 <= radius,
                ;
            }
            let (cx, cy) = (center.x, center.y);
            self.pt(Coord { x: cx + x, y: cy + y }, fill);
            self.pt(Coord { x: cx + y, y: cy + x }, fill);
            let q2x = x < cx;
            let q2y = y < cx;
            if q2x {
                self.pt(Coord { x: cx - x, y: cy + y }, fill);
            }
            if q2y {
                self.pt(Coord { x: cx - y, y: cy + x }, fill);
            }
            let q4x = x < cy;
            let q4y = y < cy;
            if q4x {
                self.pt(Coord { x: cx + y, y: cy - x }, fill);
            }
            if q4y {
                self.pt(Coord { x: cx + x, y: cy - y }, fill);
            }
            if q2x && q4y {
                self.pt(Coord { x: cx - x, y: cy - y }, fill);
            }
            if q2y && q4x {
                self.pt(Coord { x: cx - y, y: cy - x }, fill);
            }
            y += 1;
        }
    }

    fn rect<F: Fill + Copy>(&mut self, from: Coord, to: Coord, fill: F) {
        let (x1, x2) = minmax(from.x, to.x);
        let (y1, y2) = minmax(from.y, to.y);
        let x_end = if x2 < W {
            x2
        } else {
            W
        };
        let y_end = if y2 < H {
            y2
        } else {
            H
        };
        let mut y = y1;
        proof {
            assert(self@ =~~= block_drawn(old(self)@, x1 as int, x2 as int, y1 as int, y1 as int, x1 as int, fill));
        }
        while y < y_end
            invariant
                y1 <= y <= y2,
                x1 <= x2,
                y_end == min_of(y2 as int, H as int),
                x_end == min_of(x2 as int, W as int),
                self@ == block_drawn(old(self)@, x1 as int, x2 as int, y1 as int, y as int, x1 as int, fill),
            decreases y_end - y,
        {
            let mut x = x1;
            while x < x_end
                invariant
                    x1 <= x <= x2,
                    y1 <= y < y_end,
                    y_end == min_of(y2 as int, H as int),
                    x_end == min_of(x2 as int, W as int),
                    self@ == block_drawn(old(self)@, x1 as int, x2 as int, y1 as int, y as int, x as int, fill),
                decreases x_end - x,
            {
                self.pt(Coord { x, y }, fill);
                proof {
                    assert(self@ =~~= block_drawn(old(self)@, x1 as int, x2 as int, y1 as int, y as int, x + 1, fill));
                }
                x += 1;
            }
            proof {
                let target = block_drawn(old(self)@, x1 as int, x2 as int, y1 as int, y + 1, x1 as int, fill);
                assert(self@.len() == target.len());
                assert forall|cy: int| 0 <= cy < H implies #[trigger] self@[cy] =~= target[cy] by {
                    assert(self@[cy].len() == target[cy].len());
                }
                assert(self@ =~= target);
            }
            y += 1;
        }
        proof {
            let target = rect_drawn(old(self)@, from, to, fill);
            assert(self@.len() == target.len());
            assert forall|cy: int| 0 <= cy < H implies #[trigger] self@[cy] =~= target[cy] by {
                assert(self@[cy].len() == target[cy].len());
            }
            assert(self@ =~= target);
        }
    }

    fn text<F: Fill + Copy, E: Fill + Copy>(&mut self, text: &str, coord: Coord, fill: F, empty: E) {
        let n = text.unicode_len();
        let mut chars: Vec<char> = Vec::new();
        let mut i: usize = 0;
        while i < n
            invariant
                i <= n,
                n == text@.len(),
                chars@ == text@.take(i as int),
            decreases n - i,
        {
            chars.push(text.get_char(i));
            proof {
                assert(text@.take(i + 1) =~= text@.take(i as int).push(text@[i as int]));
            }
            i += 1;
        }
        proof {
            assert(text@.take(n as int) =~= text@);
        }
        write_chars(self, &chars, coord, fill, empty);
    }

    fn explosion<F: Fill + CellMatch + Copy>(&mut self, center: Coord, fill: F) {
        let ghost mut walks: Seq<Seq<Dir>> = Seq::empty();
        let mut k: usize = 0;
        while k < EXPLOSION_WALK_COUNT
            invariant
                k <= EXPLOSION_WALK_COUNT,
                walks.len() == k,
                forall|i: int| 0 <= i < walks.len() ==> (#[trigger] walks[i]).len() == EXPLOSION_WALK_MAX_DIST,
                self@ == exploded(old(self)@, center, walks, fill),
            decreases EXPLOSION_WALK_COUNT - k,
        {
            let dirs = random_dirs(EXPLOSION_WALK_MAX_DIST);
            walk_along(self, center, &dirs, fill);
            proof {
                assert(walks.push(dirs@).drop_last() =~= walks);
                walks = walks.push(dirs@);
            }
            k += 1;
        }
    }
}

/// Puts `fill` on the cell at `pt`, unless that cell is a border.
pub fn pt_off_border<const W: usize, const H: usize, F: Fill>(
    board: &mut Board<W, H>,
    pt: Coord,
    fill: F,
)
    ensures
        final(board)@ == put_off_border(old(board)@, pt.x as int, pt.y as int, fill),
        borders_kept(old(board)@, final(board)@),
{
    if pt.x < W && pt.y < H {
        let cell = board.cell_at(pt);
        if !CellObject::Border.matches(&cell) {
            board.pt(pt, fill);
        }
    }
}

} // verus!
