//! What a tick keeps. On a board that holds no liquid but water, inside a
//! ring of border, every unit that leaves a cell arrives at the neighbour it
//! was given to, so the water on the whole board is the same after a tick as
//! before it.

use vstd::prelude::*;
use crate::board::{around, neighbor_offset};
use crate::chance::draw_of;
use crate::logic::{
    any_spreads, burns, floor_stage, gives, incoming, is_tick_of, kept_depth, lava_total,
    lemma_give_is_received, lemma_incoming_bounds, lemma_tick_keeps_border, liquid_stage,
    neighbor_draws, object_stage, receives, spreads, takes_part, tick_result, water_on,
    water_total,
};
use crate::schedule::{grid_ticked, row_ticked};
use crate::shapes::on_grid;
use crate::types::{CellState, Coord};

verus! {

/// The sum of `f` over the numbers from 0 up to `n`.
pub open spec fn sum(f: spec_fn(int) -> int, n: int) -> int
    decreases n,
{
    if n <= 0 {
        0
    } else {
        sum(f, n - 1) + f(n - 1)
    }
}

/// Row `y` of a quantity that every cell has.
pub open spec fn row(q: spec_fn(int, int) -> int, y: int) -> spec_fn(int) -> int {
    |x: int| q(x, y)
}

/// The sums of the rows of `q`, each over `w` columns.
pub open spec fn rows(q: spec_fn(int, int) -> int, w: int) -> spec_fn(int) -> int {
    |y: int| sum(row(q, y), w)
}

/// The sum of `q` over a grid of `w` columns and `h` rows.
pub open spec fn total(q: spec_fn(int, int) -> int, w: int, h: int) -> int {
    sum(rows(q, w), h)
}

/// The sum of two quantities, cell by cell.
pub open spec fn plus(p: spec_fn(int, int) -> int, q: spec_fn(int, int) -> int) -> spec_fn(
    int,
    int,
) -> int {
    |x: int, y: int| p(x, y) + q(x, y)
}

/// Sums of equal terms are equal.
pub proof fn lemma_sum_same(f: spec_fn(int) -> int, g: spec_fn(int) -> int, n: int)
    requires
        forall|x: int| 0 <= x < n ==> #[trigger] f(x) == g(x),
    ensures
        sum(f, n) == sum(g, n),
    decreases n,
{
    if n > 0 {
        lemma_sum_same(f, g, n - 1);
    }
}

/// A sum of zeros is zero.
pub proof fn lemma_sum_zero(f: spec_fn(int) -> int, n: int)
    requires
        forall|x: int| 0 <= x < n ==> #[trigger] f(x) == 0,
    ensures
        sum(f, n) == 0,
    decreases n,
{
    if n > 0 {
        lemma_sum_zero(f, n - 1);
    }
}

/// The sum of sums is the sum of all the terms.
pub proof fn lemma_sum_plus(
    f: spec_fn(int) -> int,
    g: spec_fn(int) -> int,
    h: spec_fn(int) -> int,
    n: int,
)
    requires
        forall|x: int| 0 <= x < n ==> #[trigger] h(x) == f(x) + g(x),
    ensures
        sum(h, n) == sum(f, n) + sum(g, n),
    decreases n,
{
    if n > 0 {
        lemma_sum_plus(f, g, h, n - 1);
    }
}

/// A sum is the same when every term moves by one place or stays, as long
/// as no term that counts moves in or out of the range.
pub proof fn lemma_sum_shift(f: spec_fn(int) -> int, g: spec_fn(int) -> int, n: int, d: int)
    requires
        -1 <= d <= 1,
        forall|x: int| 0 <= x < n ==> #[trigger] g(x) == f(x - d),
        forall|x: int| !(0 <= x < n) || !(0 <= x + d < n) ==> #[trigger] f(x) == 0,
    ensures
        sum(g, n) == sum(f, n),
{
    if n > 0 {
        if d == 0 {
            lemma_sum_same(g, f, n);
        } else if d == 1 {
            lemma_shift_up(f, g, n, n);
            assert(f(n - 1) == 0);
        } else {
            lemma_shift_down(f, g, n, n - 1);
            assert(f(0) == 0);
            assert(g(n - 1) == f(n));
            assert(f(n) == 0);
        }
    }
}

/// Terms that move up by one place: the first `m` of them are the first
/// `m - 1` of those they came from.
proof fn lemma_shift_up(f: spec_fn(int) -> int, g: spec_fn(int) -> int, n: int, m: int)
    requires
        1 <= m <= n,
        forall|x: int| 0 <= x < n ==> #[trigger] g(x) == f(x - 1),
        f(-1) == 0,
    ensures
        sum(g, m) == sum(f, m - 1),
    decreases m,
{
    if m > 1 {
        lemma_shift_up(f, g, n, m - 1);
    } else {
        assert(sum(g, 1) == sum(g, 0) + g(0));
    }
}

/// Terms that move down by one place: the first `m` of them are the first
/// `m + 1` of those they came from.
proof fn lemma_shift_down(f: spec_fn(int) -> int, g: spec_fn(int) -> int, n: int, m: int)
    requires
        0 <= m < n,
        forall|x: int| 0 <= x < n ==> #[trigger] g(x) == f(x + 1),
        f(0) == 0,
    ensures
        sum(g, m) == sum(f, m + 1),
    decreases m,
{
    if m > 0 {
        lemma_shift_down(f, g, n, m - 1);
    } else {
        assert(sum(f, 1) == sum(f, 0) + f(0));
    }
}

/// Quantities that are equal on every cell have equal sums over the grid.
pub proof fn lemma_total_same(
    p: spec_fn(int, int) -> int,
    q: spec_fn(int, int) -> int,
    w: int,
    h: int,
)
    requires
        forall|x: int, y: int| 0 <= x < w && 0 <= y < h ==> #[trigger] p(x, y) == q(x, y),
    ensures
        total(p, w, h) == total(q, w, h),
{
    assert forall|y: int| 0 <= y < h implies #[trigger] rows(p, w)(y) == rows(q, w)(y) by {
        assert forall|x: int| 0 <= x < w implies #[trigger] row(p, y)(x) == row(q, y)(x) by {
            assert(p(x, y) == q(x, y));
        }
        lemma_sum_same(row(p, y), row(q, y), w);
    }
    lemma_sum_same(rows(p, w), rows(q, w), h);
}

/// The sum over the grid of two quantities is the sum of their sums.
pub proof fn lemma_total_plus(
    p: spec_fn(int, int) -> int,
    q: spec_fn(int, int) -> int,
    w: int,
    h: int,
)
    ensures
        total(plus(p, q), w, h) == total(p, w, h) + total(q, w, h),
{
    let r = plus(p, q);
    assert forall|y: int| 0 <= y < h implies #[trigger] rows(r, w)(y) == rows(p, w)(y) + rows(
        q,
        w,
    )(y) by {
        assert forall|x: int| 0 <= x < w implies #[trigger] row(r, y)(x) == row(p, y)(x) + row(
            q,
            y,
        )(x) by {
            assert(r(x, y) == p(x, y) + q(x, y));
        }
        lemma_sum_plus(row(p, y), row(q, y), row(r, y), w);
    }
    lemma_sum_plus(rows(p, w), rows(q, w), rows(r, w), h);
}

/// The sum over a grid is the same when every term moves to a neighbouring
/// cell, as long as no term that counts moves onto the grid or off it.
pub proof fn lemma_total_shift(
    p: spec_fn(int, int) -> int,
    q: spec_fn(int, int) -> int,
    w: int,
    h: int,
    dx: int,
    dy: int,
)
    requires
        -1 <= dx <= 1,
        -1 <= dy <= 1,
        forall|x: int, y: int| 0 <= x < w && 0 <= y < h ==> #[trigger] q(x, y) == p(x - dx, y - dy),
        forall|x: int, y: int|
            !(0 <= x < w && 0 <= y < h) || !(0 <= x + dx < w && 0 <= y + dy < h) ==> #[trigger] p(
                x,
                y,
            ) == 0,
    ensures
        total(q, w, h) == total(p, w, h),
{
    assert forall|y: int| 0 <= y < h implies #[trigger] rows(q, w)(y) == rows(p, w)(y - dy) by {
        let f = row(p, y - dy);
        let g = row(q, y);
        assert forall|x: int| 0 <= x < w implies #[trigger] g(x) == f(x - dx) by {
            assert(q(x, y) == p(x - dx, y - dy));
        }
        assert forall|x: int| !(0 <= x < w) || !(0 <= x + dx < w) implies #[trigger] f(x) == 0 by {
            assert(p(x, y - dy) == 0);
        }
        lemma_sum_shift(f, g, w, dx);
    }
    assert forall|y: int| !(0 <= y < h) || !(0 <= y + dy < h) implies #[trigger] rows(p, w)(y)
        == 0 by {
        assert forall|x: int| 0 <= x < w implies #[trigger] row(p, y)(x) == 0 by {
            assert(p(x, y) == 0);
        }
        lemma_sum_zero(row(p, y), w);
    }
    lemma_sum_shift(rows(p, w), rows(q, w), h, dy);
}

/// Whether `(x, y)` lies on a grid of `w` columns and `h` rows and off its
/// outermost rows and columns.
pub open spec fn inner(w: int, h: int, x: int, y: int) -> bool {
    1 <= x < w - 1 && 1 <= y < h - 1
}

/// The place with the column `x` and the row `y`.
pub open spec fn place(x: int, y: int) -> Coord {
    Coord { x: x as usize, y: y as usize }
}

/// What is asked of a cell of a grid that holds no liquid but water: its
/// floor is empty or water, not so deep that a tick could fill it beyond
/// measure, and on the outermost rows and columns it is a border.
pub open spec fn water_cell(g: Seq<Seq<CellState>>, w: int, x: int, y: int) -> bool {
    let cell = g[y][x];
    &&& cell.floor is Empty || cell.floor is Water
    &&& cell.floor.height() <= 247
    &&& !inner(w, g.len() as int, x, y) ==> cell.obj is Border
}

/// Whether `g` is a grid of `w` columns that holds no liquid but water, inside
/// a ring of border.
pub open spec fn water_only(g: Seq<Seq<CellState>>, w: int) -> bool {
    &&& w <= usize::MAX
    &&& g.len() <= usize::MAX
    &&& forall|y: int| 0 <= y < g.len() ==> (#[trigger] g[y]).len() == w
    &&& forall|x: int, y: int| 0 <= y < g.len() && 0 <= x < w ==> #[trigger] water_cell(g, w, x, y)
}

/// The water on each cell.
pub open spec fn water_of(g: Seq<Seq<CellState>>, w: int) -> spec_fn(int, int) -> int {
    |x: int, y: int|
        if 0 <= y < g.len() && 0 <= x < w {
            water_on(g[y][x].floor)
        } else {
            0
        }
}

/// For each cell, the unit that it receives from its `k`-th neighbour: 1 or
/// 0.
pub open spec fn arrives(g: Seq<Seq<CellState>>, w: int, frame_num: usize, salt: u32, k: int) -> spec_fn(
    int,
    int,
) -> int {
    |x: int, y: int|
        if inner(w, g.len() as int, x, y) && receives(
            g[y][x],
            around(g, x, y),
            neighbor_draws(place(x, y), frame_num, salt),
            k,
        ) {
            1int
        } else {
            0int
        }
}

/// For each cell, the unit that it gives to its `k`-th neighbour: 1 or 0.
pub open spec fn leaves(g: Seq<Seq<CellState>>, w: int, frame_num: usize, salt: u32, k: int) -> spec_fn(
    int,
    int,
) -> int {
    |x: int, y: int|
        if inner(w, g.len() as int, x, y) && draw_of(place(x, y), frame_num, salt) == k && gives(
            g[y][x],
            around(g, x, y)[k],
        ) {
            1int
        } else {
            0int
        }
}

/// Nothing on every cell.
pub open spec fn nothing() -> spec_fn(int, int) -> int {
    |x: int, y: int| 0int
}

/// For each cell, the units that it receives from its first `n` neighbours.
pub open spec fn arrived(g: Seq<Seq<CellState>>, w: int, frame_num: usize, salt: u32, n: int) -> spec_fn(
    int,
    int,
) -> int
    decreases n,
{
    if n <= 0 {
        nothing()
    } else {
        plus(arrived(g, w, frame_num, salt, n - 1), arrives(g, w, frame_num, salt, n - 1))
    }
}

/// For each cell, the units that it gives to its first `n` neighbours.
pub open spec fn left(g: Seq<Seq<CellState>>, w: int, frame_num: usize, salt: u32, n: int) -> spec_fn(
    int,
    int,
) -> int
    decreases n,
{
    if n <= 0 {
        nothing()
    } else {
        plus(left(g, w, frame_num, salt, n - 1), leaves(g, w, frame_num, salt, n - 1))
    }
}

/// All the units that arrive from the first `n` directions, over the grid.
pub open spec fn arrive_sums(g: Seq<Seq<CellState>>, w: int, frame_num: usize, salt: u32, n: int) -> int
    decreases n,
{
    if n <= 0 {
        0
    } else {
        arrive_sums(g, w, frame_num, salt, n - 1) + total(
            arrives(g, w, frame_num, salt, n - 1),
            w,
            g.len() as int,
        )
    }
}

/// All the units that leave in the first `n` directions, over the grid.
pub open spec fn leave_sums(g: Seq<Seq<CellState>>, w: int, frame_num: usize, salt: u32, n: int) -> int
    decreases n,
{
    if n <= 0 {
        0
    } else {
        leave_sums(g, w, frame_num, salt, n - 1) + total(
            leaves(g, w, frame_num, salt, n - 1),
            w,
            g.len() as int,
        )
    }
}

/// Nothing sums to nothing.
pub proof fn lemma_total_nothing(w: int, h: int)
    ensures
        total(nothing(), w, h) == 0,
{
    assert forall|y: int| 0 <= y < h implies #[trigger] rows(nothing(), w)(y) == 0 by {
        assert forall|x: int| 0 <= x < w implies #[trigger] row(nothing(), y)(x) == 0 by {
            assert(nothing()(x, y) == 0);
        }
        lemma_sum_zero(row(nothing(), y), w);
    }
    lemma_sum_zero(rows(nothing(), w), h);
}

/// What arrives over the grid is what arrives from each direction, summed.
pub proof fn lemma_arrived_total(g: Seq<Seq<CellState>>, w: int, frame_num: usize, salt: u32, n: int)
    ensures
        total(arrived(g, w, frame_num, salt, n), w, g.len() as int) == arrive_sums(
            g,
            w,
            frame_num,
            salt,
            n,
        ),
    decreases n,
{
    if n <= 0 {
        lemma_total_nothing(w, g.len() as int);
    } else {
        lemma_arrived_total(g, w, frame_num, salt, n - 1);
        lemma_total_plus(
            arrived(g, w, frame_num, salt, n - 1),
            arrives(g, w, frame_num, salt, n - 1),
            w,
            g.len() as int,
        );
    }
}

/// What leaves over the grid is what leaves in each direction, summed.
pub proof fn lemma_left_total(g: Seq<Seq<CellState>>, w: int, frame_num: usize, salt: u32, n: int)
    ensures
        total(left(g, w, frame_num, salt, n), w, g.len() as int) == leave_sums(
            g,
            w,
            frame_num,
            salt,
            n,
        ),
    decreases n,
{
    if n <= 0 {
        lemma_total_nothing(w, g.len() as int);
    } else {
        lemma_left_total(g, w, frame_num, salt, n - 1);
        lemma_total_plus(
            left(g, w, frame_num, salt, n - 1),
            leaves(g, w, frame_num, salt, n - 1),
            w,
            g.len() as int,
        );
    }
}

/// What a cell receives from its `k`-th neighbour is what that neighbour
/// gives in the opposite direction.
pub proof fn lemma_arrives_is_leaves(
    g: Seq<Seq<CellState>>,
    w: int,
    frame_num: usize,
    salt: u32,
    k: int,
    x: int,
    y: int,
)
    requires
        water_only(g, w),
        0 <= k < 8,
        0 <= x < w,
        0 <= y < g.len(),
    ensures
        arrives(g, w, frame_num, salt, k)(x, y) == leaves(g, w, frame_num, salt, 7 - k)(
            x + neighbor_offset(k).0,
            y + neighbor_offset(k).1,
        ),
{
    let h = g.len() as int;
    let ax = x + neighbor_offset(k).0;
    let ay = y + neighbor_offset(k).1;
    if inner(w, h, x, y) {
        assert(water_cell(g, w, ax, ay));
        assert(around(g, x, y)[k] == g[ay][ax]);
        if inner(w, h, ax, ay) {
            let giver = place(ax, ay);
            lemma_give_is_received(g, giver, 7 - k, frame_num, salt);
            assert(crate::logic::neighbor(giver, 7 - k) == place(x, y));
        } else {
            assert(g[ay][ax].obj is Border);
        }
    } else {
        if inner(w, h, ax, ay) {
            assert(water_cell(g, w, x, y));
            assert(around(g, ax, ay)[7 - k] == g[y][x]);
            assert(g[y][x].obj is Border);
        }
    }
}

/// Over the grid, what arrives from a direction is what leaves in the
/// opposite one.
pub proof fn lemma_direction_balance(
    g: Seq<Seq<CellState>>,
    w: int,
    frame_num: usize,
    salt: u32,
    k: int,
)
    requires
        water_only(g, w),
        0 <= k < 8,
    ensures
        total(arrives(g, w, frame_num, salt, k), w, g.len() as int) == total(
            leaves(g, w, frame_num, salt, 7 - k),
            w,
            g.len() as int,
        ),
{
    let h = g.len() as int;
    let p = leaves(g, w, frame_num, salt, 7 - k);
    let q = arrives(g, w, frame_num, salt, k);
    let dx = -neighbor_offset(k).0;
    let dy = -neighbor_offset(k).1;
    assert forall|x: int, y: int| 0 <= x < w && 0 <= y < h implies #[trigger] q(x, y) == p(
        x - dx,
        y - dy,
    ) by {
        lemma_arrives_is_leaves(g, w, frame_num, salt, k, x, y);
    }
    assert forall|x: int, y: int|
        !(0 <= x < w && 0 <= y < h) || !(0 <= x + dx < w && 0 <= y + dy < h) implies #[trigger] p(
        x,
        y,
    ) == 0 by {
    }
    lemma_total_shift(p, q, w, h, dx, dy);
}

/// Over the grid, as many units arrive as leave.
pub proof fn lemma_balance(g: Seq<Seq<CellState>>, w: int, frame_num: usize, salt: u32)
    requires
        water_only(g, w),
    ensures
        arrive_sums(g, w, frame_num, salt, 8) == leave_sums(g, w, frame_num, salt, 8),
{
    reveal_with_fuel(arrive_sums, 9);
    reveal_with_fuel(leave_sums, 9);
    lemma_direction_balance(g, w, frame_num, salt, 0);
    lemma_direction_balance(g, w, frame_num, salt, 1);
    lemma_direction_balance(g, w, frame_num, salt, 2);
    lemma_direction_balance(g, w, frame_num, salt, 3);
    lemma_direction_balance(g, w, frame_num, salt, 4);
    lemma_direction_balance(g, w, frame_num, salt, 5);
    lemma_direction_balance(g, w, frame_num, salt, 6);
    lemma_direction_balance(g, w, frame_num, salt, 7);
}

/// On a grid that holds no liquid but water, what a cell off the outermost
/// rows and columns receives from its first `n` neighbours is what the
/// liquid rule counts as incoming water, and the rule counts no lava. The
/// rule may see the cell with an older object on it.
pub proof fn lemma_arrived_is_incoming(
    g: Seq<Seq<CellState>>,
    w: int,
    frame_num: usize,
    salt: u32,
    x: int,
    y: int,
    cell: CellState,
    n: int,
)
    requires
        water_only(g, w),
        inner(w, g.len() as int, x, y),
        0 <= n <= 8,
        cell.floor == g[y][x].floor,
        cell.elev == g[y][x].elev,
        (cell.obj is Border) == (g[y][x].obj is Border),
    ensures
        arrived(g, w, frame_num, salt, n)(x, y) == incoming(
            cell,
            around(g, x, y),
            neighbor_draws(place(x, y), frame_num, salt),
            true,
            n,
        ),
        incoming(cell, around(g, x, y), neighbor_draws(place(x, y), frame_num, salt), false, n) == 0,
    decreases n,
{
    if n > 0 {
        lemma_arrived_is_incoming(g, w, frame_num, salt, x, y, cell, n - 1);
        let k = n - 1;
        assert(water_cell(g, w, x + neighbor_offset(k).0, y + neighbor_offset(k).1));
        assert(around(g, x, y)[k] == g[y + neighbor_offset(k).1][x + neighbor_offset(k).0]);
        assert(arrived(g, w, frame_num, salt, n)(x, y) == arrived(g, w, frame_num, salt, n - 1)(
            x,
            y,
        ) + arrives(g, w, frame_num, salt, k)(x, y));
    } else {
        assert(arrived(g, w, frame_num, salt, n)(x, y) == 0);
    }
}

/// What a cell off the outermost rows and columns gives to its first `n`
/// neighbours: one unit, where the neighbour it picked is among them and can
/// take one.
pub proof fn lemma_left_is_given(
    g: Seq<Seq<CellState>>,
    w: int,
    frame_num: usize,
    salt: u32,
    x: int,
    y: int,
    n: int,
)
    requires
        inner(w, g.len() as int, x, y),
        0 <= n <= 8,
    ensures
        left(g, w, frame_num, salt, n)(x, y) == if draw_of(place(x, y), frame_num, salt) < n
            && gives(g[y][x], around(g, x, y)[draw_of(place(x, y), frame_num, salt) as int]) {
            1int
        } else {
            0int
        },
    decreases n,
{
    if n > 0 {
        lemma_left_is_given(g, w, frame_num, salt, x, y, n - 1);
        assert(left(g, w, frame_num, salt, n)(x, y) == left(g, w, frame_num, salt, n - 1)(x, y)
            + leaves(g, w, frame_num, salt, n - 1)(x, y));
    } else {
        assert(left(g, w, frame_num, salt, n)(x, y) == 0);
    }
}

/// A cell on the outermost rows and columns neither gives nor receives.
pub proof fn lemma_none_off_inner(
    g: Seq<Seq<CellState>>,
    w: int,
    frame_num: usize,
    salt: u32,
    x: int,
    y: int,
    n: int,
)
    requires
        !inner(w, g.len() as int, x, y),
    ensures
        arrived(g, w, frame_num, salt, n)(x, y) == 0,
        left(g, w, frame_num, salt, n)(x, y) == 0,
    decreases n,
{
    if n > 0 {
        lemma_none_off_inner(g, w, frame_num, salt, x, y, n - 1);
        assert(left(g, w, frame_num, salt, n)(x, y) == left(g, w, frame_num, salt, n - 1)(x, y)
            + leaves(g, w, frame_num, salt, n - 1)(x, y));
        assert(arrived(g, w, frame_num, salt, n)(x, y) == arrived(g, w, frame_num, salt, n - 1)(
            x,
            y,
        ) + arrives(g, w, frame_num, salt, n - 1)(x, y));
    } else {
        assert(left(g, w, frame_num, salt, n)(x, y) == 0);
        assert(arrived(g, w, frame_num, salt, n)(x, y) == 0);
    }
}

/// A border cell receives nothing.
pub proof fn lemma_border_receives_nothing(
    cell: CellState,
    surrounding: Seq<CellState>,
    draws: Seq<usize>,
    water: bool,
    n: int,
)
    requires
        cell.obj is Border,
    ensures
        incoming(cell, surrounding, draws, water, n) == 0,
    decreases n,
{
    if n > 0 {
        lemma_border_receives_nothing(cell, surrounding, draws, water, n - 1);
    }
}

/// The water on a cell after a tick is the water it held, less the unit it
/// gave, and more by the units it received.
pub proof fn lemma_cell_balance(
    before: Seq<Seq<CellState>>,
    after: Seq<Seq<CellState>>,
    w: int,
    frame_num: usize,
    salt: u32,
    x: int,
    y: int,
)
    requires
        water_only(before, w),
        grid_ticked(before, after, frame_num, salt),
        0 <= x < w,
        0 <= y < before.len(),
    ensures
        water_of(after, w)(x, y) + left(before, w, frame_num, salt, 8)(x, y) == water_of(before, w)(
            x,
            y,
        ) + arrived(before, w, frame_num, salt, 8)(x, y),
        after[y][x].floor is Empty || after[y][x].floor is Water,
        after[y][x].obj is Border == before[y][x].obj is Border,
        after[y].len() == w,
{
    let h = before.len() as int;
    let cell = before[y][x];
    assert(water_cell(before, w, x, y));
    if inner(w, h, x, y) {
        let surrounding = around(before, x, y);
        let coord = place(x, y);
        let own = draw_of(coord, frame_num, salt);
        let draws = neighbor_draws(coord, frame_num, salt);
        assert(row_ticked(before, before[y], after[y], y, frame_num, salt));
        assert(is_tick_of(after[y][x], cell, surrounding, cell, coord, frame_num, salt));
        let roll = choose|roll: usize|
            roll < 100 && after[y][x] == #[trigger] tick_result(
                cell,
                surrounding,
                cell,
                roll,
                own,
                draws,
            );
        assert forall|k: int| 0 <= k < 8 implies !spreads(#[trigger] surrounding[k]) by {
            assert(water_cell(before, w, x + neighbor_offset(k).0, y + neighbor_offset(k).1));
        }
        assert(!any_spreads(surrounding));
        let aged = object_stage(cell, cell);
        lemma_arrived_is_incoming(before, w, frame_num, salt, x, y, aged, 8);
        lemma_left_is_given(before, w, frame_num, salt, x, y, 8);
        assert(water_of(after, w)(x, y) == water_on(after[y][x].floor));
        assert(water_of(before, w)(x, y) == water_on(cell.floor));
        if cell.obj is Border {
            lemma_tick_keeps_border(cell, surrounding, cell, roll, own, draws);
            lemma_border_receives_nothing(aged, surrounding, draws, true, 8);
            assert(arrived(before, w, frame_num, salt, 8)(x, y) == 0);
            assert(left(before, w, frame_num, salt, 8)(x, y) == 0);
        } else {
            assert(floor_stage(cell, surrounding, cell, roll) == cell);
            let result = liquid_stage(aged, surrounding, aged, own, draws);
            assert(after[y][x] == result);
            assert(takes_part(aged));
            assert(!burns(aged, surrounding));
            let come = incoming(aged, surrounding, draws, true, 8);
            lemma_incoming_bounds(aged, surrounding, draws, true, 8);
            assert(incoming(aged, surrounding, draws, false, 8) == 0);
            assert(gives(aged, surrounding[own as int]) == gives(cell, surrounding[own as int]));
            let gone: int = if gives(cell, surrounding[own as int]) {
                1
            } else {
                0
            };
            assert(left(before, w, frame_num, salt, 8)(x, y) == gone);
            assert(arrived(before, w, frame_num, salt, 8)(x, y) == come);
            assert(lava_total(aged, surrounding, own, draws) == 0);
            if cell.floor is Water {
                assert(kept_depth(aged, surrounding, own) == cell.floor.height() - gone);
                assert(water_total(aged, surrounding, own, draws) == come + cell.floor.height()
                    - gone);
            } else {
                assert(gone == 0);
                assert(water_total(aged, surrounding, own, draws) == come);
            }
            assert(water_on(result.floor) == water_total(aged, surrounding, own, draws));
        }
    } else {
        assert(after[y][x] == before[y][x]);
        assert(water_of(after, w)(x, y) == water_on(after[y][x].floor));
        assert(water_of(before, w)(x, y) == water_on(cell.floor));
        lemma_none_off_inner(before, w, frame_num, salt, x, y, 8);
        if 1 <= y < h - 1 {
            assert(row_ticked(before, before[y], after[y], y, frame_num, salt));
        }
    }
}

/// On a board that holds no liquid but water, inside a ring of border, a
/// tick keeps the water: the depths of all cells sum to the same after it as
/// before.
pub proof fn lemma_water_is_kept(
    before: Seq<Seq<CellState>>,
    after: Seq<Seq<CellState>>,
    w: int,
    frame_num: usize,
    salt: u32,
)
    requires
        water_only(before, w),
        grid_ticked(before, after, frame_num, salt),
    ensures
        total(water_of(after, w), w, after.len() as int) == total(
            water_of(before, w),
            w,
            before.len() as int,
        ),
{
    let h = before.len() as int;
    let gone = left(before, w, frame_num, salt, 8);
    let come = arrived(before, w, frame_num, salt, 8);
    let then = water_of(before, w);
    let now = water_of(after, w);
    assert forall|x: int, y: int| 0 <= x < w && 0 <= y < h implies #[trigger] plus(now, gone)(x, y)
        == plus(then, come)(x, y) by {
        lemma_cell_balance(before, after, w, frame_num, salt, x, y);
    }
    lemma_total_same(plus(now, gone), plus(then, come), w, h);
    lemma_total_plus(now, gone, w, h);
    lemma_total_plus(then, come, w, h);
    lemma_arrived_total(before, w, frame_num, salt, 8);
    lemma_left_total(before, w, frame_num, salt, 8);
    lemma_balance(before, w, frame_num, salt);
}

/// Over any number of ticks of such a board the water is kept: where each
/// grid of a history is a tick of the one before and holds no liquid but
/// water, every grid of the history holds as much water as the first.
pub proof fn lemma_water_is_kept_for_ever(
    history: Seq<Seq<Seq<CellState>>>,
    frames: Seq<usize>,
    w: int,
    salt: u32,
    k: int,
)
    requires
        frames.len() == history.len(),
        0 <= k < history.len(),
        forall|i: int| 0 <= i < history.len() ==> water_only(#[trigger] history[i], w),
        forall|i: int|
            0 <= i < history.len() - 1 ==> grid_ticked(
                #[trigger] history[i],
                history[i + 1],
                frames[i],
                salt,
            ),
    ensures
        total(water_of(history[k], w), w, history[k].len() as int) == total(
            water_of(history[0], w),
            w,
            history[0].len() as int,
        ),
    decreases k,
{
    if k > 0 {
        lemma_water_is_kept_for_ever(history, frames, w, salt, k - 1);
        assert(grid_ticked(history[k - 1], history[k], frames[k - 1], salt));
        lemma_water_is_kept(history[k - 1], history[k], w, frames[k - 1], salt);
    }
}

} // verus!
