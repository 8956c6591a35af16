//! One tick of the whole board. The rows off the outer edge are cut into
//! stripes, each stripe is worked on by one thread of a pool, and the rows
//! that come back make up the next board. Every thread reads the board of
//! before the tick and writes only the rows of its own stripe.

use vstd::prelude::*;
use vstd::arithmetic::div_mod::lemma_div_basics;
use scoped_threadpool::Pool;
use crate::board::{around, borders_kept, Board};
use crate::chance::draw_of;
use crate::logic::{
    is_tick_of, lemma_tick_keeps_border, lemma_tick_keeps_wall, neighbor_draws, tick, tick_result,
};
use crate::state::GameState;
use crate::types::{CellState, Coord, B_HEIGHT, B_WIDTH};

verus! {

/// The number of threads that share the work of a tick.
pub const NUM_BOARD_ADVANCE_THREADS: u32 = 4;

/// A pool of worker threads from the `scoped_threadpool` crate.
#[verifier::external_type_specification]
#[verifier::external_body]
pub struct ExPool(Pool);

/// Some rows in a line of the next board, with the number of the first.
pub struct Stripe {
    pub start: usize,
    pub rows: Vec<[CellState; B_WIDTH]>,
}

/// Whether `row` is what one tick makes of row `y` of `before`: each cell off
/// the two ends of the row is a tick of the cell above which it started, the
/// two ends are as they started.
pub open spec fn row_ticked(
    before: Seq<Seq<CellState>>,
    started: Seq<CellState>,
    row: Seq<CellState>,
    y: int,
    frame_num: usize,
    salt: u32,
) -> bool {
    &&& row.len() == started.len()
    &&& forall|x: int|
        0 <= x < started.len() ==> if 1 <= x < started.len() - 1 {
            is_tick_of(
                #[trigger] row[x],
                before[y][x],
                around(before, x, y),
                started[x],
                Coord { x: x as usize, y: y as usize },
                frame_num,
                salt,
            )
        } else {
            row[x] == started[x]
        }
}

/// Whether the rows of `after` are what one tick makes of the rows of `job`.
pub open spec fn stripe_ticked(
    before: Seq<Seq<CellState>>,
    frame_num: usize,
    salt: u32,
    job: Stripe,
    after: Stripe,
) -> bool {
    &&& after.start == job.start
    &&& after.rows.len() == job.rows.len()
    &&& forall|r: int|
        0 <= r < job.rows.len() ==> row_ticked(
            before,
            job.rows[r]@,
            #[trigger] after.rows[r]@,
            job.start + r,
            frame_num,
            salt,
        )
}

/// Whether `after` is what one tick makes of `before`: the outermost rows
/// and columns are the same, every other cell is a tick of itself.
pub open spec fn grid_ticked(
    before: Seq<Seq<CellState>>,
    after: Seq<Seq<CellState>>,
    frame_num: usize,
    salt: u32,
) -> bool {
    &&& after.len() == before.len()
    &&& forall|y: int|
        0 <= y < before.len() ==> if 1 <= y < before.len() - 1 {
            row_ticked(before, before[y], #[trigger] after[y], y, frame_num, salt)
        } else {
            after[y] == before[y]
        }
}

/// Whether a stripe lies off the first and the last row of the board.
pub open spec fn stripe_fits(job: Stripe) -> bool {
    1 <= job.start && job.start + job.rows.len() <= B_HEIGHT - 1
}

/// Works the rows of one stripe: every cell off the two ends of a row is
/// ticked, with the board of `s` as the generation before.
pub fn tick_stripe(s: &GameState, stripe: &mut Stripe)
    requires
        stripe_fits(*old(stripe)),
    ensures
        stripe_ticked(s.board@, s.frame_num, s.salt, *old(stripe), *final(stripe)),
{
    let mut r: usize = 0;
    while r < stripe.rows.len()
        invariant
            r <= stripe.rows.len(),
            stripe.start == old(stripe).start,
            stripe.rows.len() == old(stripe).rows.len(),
            stripe_fits(*old(stripe)),
            forall|k: int| r <= k < stripe.rows.len() ==> stripe.rows[k] == old(stripe).rows[k],
            forall|k: int|
                0 <= k < r ==> row_ticked(
                    s.board@,
                    old(stripe).rows[k]@,
                    #[trigger] stripe.rows[k]@,
                    stripe.start + k,
                    s.frame_num,
                    s.salt,
                ),
        decreases stripe.rows.len() - r,
    {
        let y = stripe.start + r;
        let mut x: usize = 1;
        while x < B_WIDTH - 1
            invariant
                1 <= x <= B_WIDTH - 1,
                r < stripe.rows.len(),
                y == stripe.start + r,
                stripe.start == old(stripe).start,
                stripe.rows.len() == old(stripe).rows.len(),
                stripe_fits(*old(stripe)),
                forall|k: int| r < k < stripe.rows.len() ==> stripe.rows[k] == old(stripe).rows[k],
                forall|k: int|
                    0 <= k < r ==> row_ticked(
                        s.board@,
                        old(stripe).rows[k]@,
                        #[trigger] stripe.rows[k]@,
                        stripe.start + k,
                        s.frame_num,
                        s.salt,
                    ),
                forall|c: int|
                    0 <= c < B_WIDTH ==> if 1 <= c < x {
                        is_tick_of(
                            #[trigger] stripe.rows[r as int]@[c],
                            s.board@[y as int][c],
                            around(s.board@, c, y as int),
                            old(stripe).rows[r as int]@[c],
                            Coord { x: c as usize, y },
                            s.frame_num,
                            s.salt,
                        )
                    } else {
                        stripe.rows[r as int]@[c] == old(stripe).rows[r as int]@[c]
                    },
            decreases B_WIDTH - x,
        {
            let coord = Coord { x, y };
            let old_cell = s.board.cell_at(coord);
            let old_surrounding = s.board.surrounding(coord);
            tick(&old_cell, &old_surrounding, &mut stripe.rows[r][x], coord, s);
            x += 1;
        }
        r += 1;
    }
}

/// Hands every stripe to a thread of the pool (`Pool::scoped` and
/// `Scope::execute` of `scoped_threadpool`) and waits until all of them are
/// done. Each thread calls `tick_stripe` on its stripe, so afterwards every
/// stripe is as that function leaves it. That `scoped` runs each job once and
/// returns only when all have ended is taken from the crate.
#[verifier::external_body]
fn run_stripes(pool: &mut Pool, s: &GameState, jobs: &mut Vec<Stripe>)
    requires
        forall|i: int| 0 <= i < old(jobs).len() ==> stripe_fits(#[trigger] old(jobs)[i]),
    ensures
        final(jobs).len() == old(jobs).len(),
        forall|i: int|
            0 <= i < old(jobs).len() ==> stripe_ticked(
                s.board@,
                s.frame_num,
                s.salt,
                old(jobs)[i],
                #[trigger] final(jobs)[i],
            ),
{
    pool.scoped(
        |scope|
            {
                for job in jobs.iter_mut() {
                    scope.execute(move || tick_stripe(s, job));
                }
            },
    );
}

/// Cuts the rows `first..end` into `parts` stripes in a line. Each stripe
/// takes its share of the rows that are left when its turn comes: their
/// number divided by the number of stripes still to be cut, rounded down.
pub fn partition(first: usize, end: usize, parts: usize) -> (bounds: Vec<(usize, usize)>)
    requires
        first <= end,
        0 < parts,
    ensures
        bounds@.len() == parts,
        bounds@[0].0 == first,
        bounds@[parts - 1].1 == end,
        forall|k: int| 0 <= k < parts - 1 ==> (#[trigger] bounds@[k]).1 == bounds@[k + 1].0,
        forall|k: int|
            0 <= k < parts ==> (#[trigger] bounds@[k]).1 - bounds@[k].0 == (end - bounds@[k].0) / (
            parts - k),
        forall|k: int| 0 <= k < parts ==> first <= (#[trigger] bounds@[k]).0 <= bounds@[k].1 <= end,
{
    let mut bounds: Vec<(usize, usize)> = Vec::new();
    let mut start = first;
    let mut left = parts;
    while left > 0
        invariant
            left <= parts,
            first <= start <= end,
            bounds@.len() == parts - left,
            left < parts ==> bounds@[0].0 == first && bounds@[parts - left - 1].1 == start,
            left == parts ==> start == first,
            left == 0 ==> start == end,
            forall|k: int| 0 <= k < bounds@.len() - 1 ==> (#[trigger] bounds@[k]).1 == bounds@[k + 1].0,
            forall|k: int|
                0 <= k < bounds@.len() ==> (#[trigger] bounds@[k]).1 - bounds@[k].0 == (end
                    - bounds@[k].0) / (parts - k),
            forall|k: int|
                0 <= k < bounds@.len() ==> first <= (#[trigger] bounds@[k]).0 <= bounds@[k].1 <= end,
        decreases left,
    {
        let size = (end - start) / left;
        proof {
            let rest = (end - start) as int;
            if left == 1 {
                lemma_div_basics(rest);
            }
            assert(rest / (left as int) <= rest) by (nonlinear_arith)
                requires
                    0 <= rest,
                    1 <= left,
            ;
            assert(0 <= rest / (left as int)) by (nonlinear_arith)
                requires
                    0 <= rest,
                    1 <= left,
            ;
        }
        bounds.push((start, start + size));
        start = start + size;
        left -= 1;
    }
    bounds
}

/// Whether `job` holds the rows of `grid` from `bound.0` up to `bound.1`.
pub open spec fn is_cut_of(job: Stripe, grid: Seq<Seq<CellState>>, bound: (usize, usize)) -> bool {
    &&& job.start == bound.0
    &&& job.rows.len() == bound.1 - bound.0
    &&& forall|r: int| 0 <= r < job.rows.len() ==> (#[trigger] job.rows[r])@ == grid[job.start + r]
}

/// The rows of `board` from `start` up to `end`, as a stripe.
pub fn cut_stripe(board: &Board<B_WIDTH, B_HEIGHT>, start: usize, end: usize) -> (job: Stripe)
    requires
        start <= end <= B_HEIGHT,
    ensures
        is_cut_of(job, board@, (start, end)),
{
    let mut rows: Vec<[CellState; B_WIDTH]> = Vec::new();
    let mut y = start;
    while y < end
        invariant
            start <= y <= end <= B_HEIGHT,
            rows.len() == y - start,
            forall|r: int| 0 <= r < y - start ==> (#[trigger] rows[r])@ == board@[start + r],
        decreases end - y,
    {
        rows.push(board.row(y));
        y += 1;
    }
    Stripe { start, rows }
}

/// One tick of the board of `s`, shared out over the threads of `pool`.
pub fn tick_board(s: &GameState, pool: &mut Pool) -> (next: Board<B_WIDTH, B_HEIGHT>)
    ensures
        grid_ticked(s.board@, next@, s.frame_num, s.salt),
{
    let mut next = s.board.clone();
    let bounds = partition(1, B_HEIGHT - 1, NUM_BOARD_ADVANCE_THREADS as usize);
    let mut jobs: Vec<Stripe> = Vec::new();
    let mut k: usize = 0;
    while k < bounds.len()
        invariant
            k <= bounds@.len(),
            jobs@.len() == k,
            forall|i: int|
                0 <= i < bounds@.len() ==> 1 <= (#[trigger] bounds@[i]).0 <= bounds@[i].1 <= B_HEIGHT
                    - 1,
            forall|i: int| 0 <= i < k ==> is_cut_of(#[trigger] jobs@[i], s.board@, bounds@[i]),
        decreases bounds@.len() - k,
    {
        let (start, end) = bounds[k];
        jobs.push(cut_stripe(&s.board, start, end));
        k += 1;
    }
    let ghost cut = jobs@;
    run_stripes(pool, s, &mut jobs);
    let mut k: usize = 0;
    while k < jobs.len()
        invariant
            k <= jobs@.len(),
            jobs@.len() == bounds@.len(),
            jobs@.len() == cut.len(),
            bounds@.len() == NUM_BOARD_ADVANCE_THREADS,
            bounds@[0].0 == 1,
            bounds@[bounds@.len() - 1].1 == B_HEIGHT - 1,
            forall|i: int|
                0 <= i < bounds@.len() - 1 ==> (#[trigger] bounds@[i]).1 == bounds@[i + 1].0,
            forall|i: int|
                0 <= i < bounds@.len() ==> 1 <= (#[trigger] bounds@[i]).0 <= bounds@[i].1 <= B_HEIGHT
                    - 1,
            forall|i: int| 0 <= i < cut.len() ==> is_cut_of(#[trigger] cut[i], s.board@, bounds@[i]),
            forall|i: int|
                0 <= i < cut.len() ==> stripe_ticked(
                    s.board@,
                    s.frame_num,
                    s.salt,
                    cut[i],
                    #[trigger] jobs@[i],
                ),
            next@.len() == B_HEIGHT,
            next@[0] == s.board@[0],
            next@[B_HEIGHT - 1] == s.board@[B_HEIGHT - 1],
            k < jobs@.len() ==> forall|y: int|
                bounds@[k as int].0 <= y < B_HEIGHT - 1 ==> #[trigger] next@[y] == s.board@[y],
            forall|y: int|
                1 <= y < (if k < jobs@.len() {
                    bounds@[k as int].0 as int
                } else {
                    B_HEIGHT - 1
                }) ==> row_ticked(
                    s.board@,
                    s.board@[y],
                    #[trigger] next@[y],
                    y,
                    s.frame_num,
                    s.salt,
                ),
        decreases jobs@.len() - k,
    {
        let start = jobs[k].start;
        let mut r: usize = 0;
        while r < jobs[k].rows.len()
            invariant
                k < jobs@.len(),
                r <= jobs@[k as int].rows.len(),
                jobs@.len() == bounds@.len(),
                jobs@.len() == cut.len(),
                start == bounds@[k as int].0,
                jobs@[k as int].start == start,
                jobs@[k as int].rows.len() == bounds@[k as int].1 - bounds@[k as int].0,
                1 <= bounds@[k as int].0 <= bounds@[k as int].1 <= B_HEIGHT - 1,
                is_cut_of(cut[k as int], s.board@, bounds@[k as int]),
                stripe_ticked(s.board@, s.frame_num, s.salt, cut[k as int], jobs@[k as int]),
                next@.len() == B_HEIGHT,
                next@[0] == s.board@[0],
                next@[B_HEIGHT - 1] == s.board@[B_HEIGHT - 1],
                forall|y: int| start + r <= y < B_HEIGHT - 1 ==> #[trigger] next@[y] == s.board@[y],
                forall|y: int|
                    1 <= y < start + r ==> row_ticked(
                        s.board@,
                        s.board@[y],
                        #[trigger] next@[y],
                        y,
                        s.frame_num,
                        s.salt,
                    ),
            decreases jobs@[k as int].rows.len() - r,
        {
            proof {
                assert(row_ticked(
                    s.board@,
                    cut[k as int].rows[r as int]@,
                    jobs@[k as int].rows[r as int]@,
                    start + r,
                    s.frame_num,
                    s.salt,
                ));
            }
            next.set_row(start + r, jobs[k].rows[r]);
            r += 1;
        }
        k += 1;
    }
    next
}

/// What a tick makes of a row depends on the generation before only through
/// that row and the rows above and below it: a worker needs its own rows of
/// the board of before and one more row on each side.
pub proof fn lemma_row_reads_three_rows(
    before: Seq<Seq<CellState>>,
    other: Seq<Seq<CellState>>,
    started: Seq<CellState>,
    row: Seq<CellState>,
    y: int,
    frame_num: usize,
    salt: u32,
)
    requires
        other[y - 1] == before[y - 1],
        other[y] == before[y],
        other[y + 1] == before[y + 1],
        row_ticked(before, started, row, y, frame_num, salt),
    ensures
        row_ticked(other, started, row, y, frame_num, salt),
{
    assert forall|x: int| 0 <= x < started.len() implies if 1 <= x < started.len() - 1 {
        is_tick_of(
            #[trigger] row[x],
            other[y][x],
            around(other, x, y),
            started[x],
            Coord { x: x as usize, y: y as usize },
            frame_num,
            salt,
        )
    } else {
        row[x] == started[x]
    } by {
        assert(around(other, x, y) =~= around(before, x, y));
    }
}

/// A tick of a board leaves a wall standing.
pub proof fn lemma_tick_keeps_walls(
    before: Seq<Seq<CellState>>,
    after: Seq<Seq<CellState>>,
    frame_num: usize,
    salt: u32,
    x: int,
    y: int,
)
    requires
        grid_ticked(before, after, frame_num, salt),
        0 <= y < before.len(),
        0 <= x < before[y].len(),
        before[y][x].obj is Wall,
    ensures
        after[y][x].obj is Wall,
{
    if 1 <= y < before.len() - 1 {
        assert(row_ticked(before, before[y], after[y], y, frame_num, salt));
        if 1 <= x < before[y].len() - 1 {
            let coord = Coord { x: x as usize, y: y as usize };
            assert(is_tick_of(
                after[y][x],
                before[y][x],
                around(before, x, y),
                before[y][x],
                coord,
                frame_num,
                salt,
            ));
            let roll = choose|roll: usize|
                roll < 100 && after[y][x] == #[trigger] tick_result(
                    before[y][x],
                    around(before, x, y),
                    before[y][x],
                    roll,
                    draw_of(coord, frame_num, salt),
                    neighbor_draws(coord, frame_num, salt),
                );
            lemma_tick_keeps_wall(
                before[y][x],
                around(before, x, y),
                before[y][x],
                roll,
                draw_of(coord, frame_num, salt),
                neighbor_draws(coord, frame_num, salt),
            );
        }
    }
}

/// A tick of a board changes no border cell.
pub proof fn lemma_tick_keeps_borders(
    before: Seq<Seq<CellState>>,
    after: Seq<Seq<CellState>>,
    frame_num: usize,
    salt: u32,
)
    requires
        grid_ticked(before, after, frame_num, salt),
    ensures
        borders_kept(before, after),
{
    assert forall|x: int, y: int|
        0 <= y < before.len() && 0 <= x < before[y].len() && before[y][x].obj is Border implies #[trigger] after[y][x]
        == before[y][x] by {
        if 1 <= y < before.len() - 1 {
            assert(row_ticked(before, before[y], after[y], y, frame_num, salt));
            if 1 <= x < before[y].len() - 1 {
                let coord = Coord { x: x as usize, y: y as usize };
                assert(is_tick_of(
                    after[y][x],
                    before[y][x],
                    around(before, x, y),
                    before[y][x],
                    coord,
                    frame_num,
                    salt,
                ));
                let roll = choose|roll: usize|
                    roll < 100 && after[y][x] == #[trigger] tick_result(
                        before[y][x],
                        around(before, x, y),
                        before[y][x],
                        roll,
                        draw_of(coord, frame_num, salt),
                        neighbor_draws(coord, frame_num, salt),
                    );
                lemma_tick_keeps_border(
                    before[y][x],
                    around(before, x, y),
                    before[y][x],
                    roll,
                    draw_of(coord, frame_num, salt),
                    neighbor_draws(coord, frame_num, salt),
                );
            }
        }
    }
    assert forall|y: int| 0 <= y < before.len() implies (#[trigger] after[y]).len() == before[y].len() by {
        if 1 <= y < before.len() - 1 {
            assert(row_ticked(before, before[y], after[y], y, frame_num, salt));
        }
    }
}

} // verus!
