//! The rules by which one cell changes in one tick: first its floor, then
//! the object on it, then the liquid that flows between it and its eight
//! neighbours. Every rule reads the cell and its neighbours as they were
//! before the tick.

use vstd::prelude::*;
use crate::art::sat_add;
use crate::board::{around, neighbor_offset};
use crate::chance::{draw_of, local_draw, roll_percent};
use crate::state::GameState;
use crate::types::{
    CellFloor, CellObject, CellState, Coord, SnakeColor, MAX_WATER_DIST,
    MAX_WATER_DIST_FOR_SEED_SPREAD,
};

verus! {

/// `a - b`, stopped at 0.
pub open spec fn sat_sub(a: u8, b: u8) -> u8 {
    if a < b {
        0u8
    } else {
        (a - b) as u8
    }
}

/// `n`, capped at 255.
pub open spec fn cap(n: int) -> u8 {
    if n > 255 {
        255u8
    } else if n < 0 {
        0u8
    } else {
        n as u8
    }
}

// ---------------------------------------------------------------------------
// The floor
// ---------------------------------------------------------------------------

/// Whether `cell` is a seed close enough to water to spread to a neighbour.
pub open spec fn spreads(cell: CellState) -> bool {
    match cell.floor {
        CellFloor::Seed { dist, .. } => dist + 1 <= MAX_WATER_DIST_FOR_SEED_SPREAD,
        _ => false,
    }
}

/// Whether one of the cells is a seed that spreads.
pub open spec fn any_spreads(cells: Seq<CellState>) -> bool {
    exists|i: int| 0 <= i < cells.len() && spreads(#[trigger] cells[i])
}

/// Whether one of the cells is water.
pub open spec fn touches_water(cells: Seq<CellState>) -> bool {
    exists|i: int| 0 <= i < cells.len() && (#[trigger] cells[i]).floor is Water
}

/// The least distance to water among the seeds in `cells`; 256 where there
/// is no seed.
pub open spec fn least_seed_dist(cells: Seq<CellState>) -> int
    decreases cells.len(),
{
    if cells.len() == 0 {
        256
    } else {
        let rest = least_seed_dist(cells.drop_last());
        match cells.last().floor {
            CellFloor::Seed { dist, .. } => if dist < rest {
                dist as int
            } else {
                rest
            },
            _ => rest,
        }
    }
}

/// A seed's distance to water after a tick. Next to water it is 1. Next to a
/// seed that is nearer to water it is one more than the nearest such seed's.
/// Otherwise the seed has lost its way to water and its distance grows by 1.
pub open spec fn next_dist(dist: u8, surrounding: Seq<CellState>) -> u8 {
    if touches_water(surrounding) {
        1
    } else if least_seed_dist(surrounding) < dist {
        (least_seed_dist(surrounding) + 1) as u8
    } else {
        sat_add(dist, 1)
    }
}

/// A seed's height after a tick, given its new distance to water: near water
/// it grows by 1 when the roll is 0, far from water it shrinks by 1.
pub open spec fn next_height(height: u8, dist: u8, roll: usize) -> u8 {
    if dist <= MAX_WATER_DIST_FOR_SEED_SPREAD {
        if roll == 0 {
            sat_add(height, 1)
        } else {
            height
        }
    } else {
        sat_sub(height, 1)
    }
}

/// Whether the floor rule asks for a roll on these cells.
pub open spec fn floor_wants_roll(
    old_cell: CellState,
    surrounding: Seq<CellState>,
    new_cell: CellState,
) -> bool {
    if old_cell.obj is Border || new_cell.obj is Border {
        false
    } else {
        match old_cell.floor {
            CellFloor::Empty | CellFloor::Indicator(_) => any_spreads(surrounding),
            CellFloor::Seed { dist, .. } => next_dist(dist, surrounding)
                <= MAX_WATER_DIST_FOR_SEED_SPREAD,
            _ => false,
        }
    }
}

/// The floor rule. `new_cell` comes back with a new floor or as it was:
/// - a border cell never changes;
/// - empty ground (an indicator counts as such) next to a seed that spreads
///   becomes a seedling when the roll is 0;
/// - a seed moves to its new distance and height, and reverts to empty ground
///   once it is too far from water;
/// - water and lava are left to the liquid rule, and any other floor stays.
pub open spec fn floor_stage(
    old_cell: CellState,
    surrounding: Seq<CellState>,
    new_cell: CellState,
    roll: usize,
) -> CellState {
    if old_cell.obj is Border || new_cell.obj is Border {
        new_cell
    } else {
        match old_cell.floor {
            CellFloor::Empty | CellFloor::Indicator(_) => if any_spreads(surrounding) && roll == 0 {
                CellState {
                    floor: CellFloor::Seed { height: 1, dist: MAX_WATER_DIST_FOR_SEED_SPREAD },
                    ..new_cell
                }
            } else {
                new_cell
            },
            CellFloor::Water { .. } | CellFloor::Lava { .. } | CellFloor::Turf | CellFloor::DeadSeed => new_cell,
            CellFloor::Seed { height, dist } => {
                let dist = next_dist(dist, surrounding);
                if dist > MAX_WATER_DIST {
                    CellState { floor: CellFloor::Empty, ..new_cell }
                } else {
                    CellState {
                        floor: CellFloor::Seed { height: next_height(height, dist, roll), dist },
                        ..new_cell
                    }
                }
            },
        }
    }
}

/// Whether the object on a cell is the border.
pub fn is_border(cell: &CellState) -> (b: bool)
    ensures
        b == (cell.obj is Border),
{
    match cell.obj {
        CellObject::Border => true,
        _ => false,
    }
}

/// What the floor rule needs to know of the neighbours.
pub struct FloorScan {
    pub spreads: bool,
    pub water: bool,
    /// The least distance among the seeds, 256 where there is none.
    pub least_dist: u16,
}

/// Looks over the neighbours once for the floor rule.
pub fn scan_floor(surrounding: &[CellState; 8]) -> (scan: FloorScan)
    ensures
        scan.spreads == any_spreads(surrounding@),
        scan.water == touches_water(surrounding@),
        scan.least_dist == least_seed_dist(surrounding@),
{
    let mut scan = FloorScan { spreads: false, water: false, least_dist: 256 };
    let mut i: usize = 0;
    assert(surrounding@.take(0) =~= Seq::<CellState>::empty());
    while i < 8
        invariant
            i <= 8,
            scan.spreads == any_spreads(surrounding@.take(i as int)),
            scan.water == touches_water(surrounding@.take(i as int)),
            scan.least_dist == least_seed_dist(surrounding@.take(i as int)),
            scan.least_dist <= 256,
        decreases 8 - i,
    {
        let ghost before = surrounding@.take(i as int);
        let ghost after = surrounding@.take(i + 1);
        proof {
            assert(after.drop_last() =~= before);
            assert(after.last() == surrounding@[i as int]);
            assert(after[i as int] == surrounding@[i as int]);
            assert(forall|k: int| 0 <= k < i ==> before[k] == after[k]);
            if any_spreads(before) {
                let k = choose|k: int| 0 <= k < before.len() && spreads(#[trigger] before[k]);
                assert(spreads(after[k]));
            }
            if touches_water(before) {
                let k = choose|k: int| 0 <= k < before.len() && (#[trigger] before[k]).floor is Water;
                assert(after[k].floor is Water);
            }
            if any_spreads(after) {
                let k = choose|k: int| 0 <= k < after.len() && spreads(#[trigger] after[k]);
                if k < i {
                    assert(spreads(before[k]));
                }
            }
            if touches_water(after) {
                let k = choose|k: int| 0 <= k < after.len() && (#[trigger] after[k]).floor is Water;
                if k < i {
                    assert(before[k].floor is Water);
                }
            }
        }
        match surrounding[i].floor {
            CellFloor::Seed { dist, .. } => {
                if dist < MAX_WATER_DIST_FOR_SEED_SPREAD {
                    scan.spreads = true;
                }
                if (dist as u16) < scan.least_dist {
                    scan.least_dist = dist as u16;
                }
            },
            CellFloor::Water { .. } => {
                scan.water = true;
            },
            _ => {},
        }
        i += 1;
    }
    proof {
        assert(surrounding@.take(8) =~= surrounding@);
    }
    scan
}

/// A seed's distance to water after a tick.
fn seed_dist_after(dist: u8, scan: &FloorScan, Ghost(surrounding): Ghost<Seq<CellState>>) -> (d: u8)
    requires
        scan.water == touches_water(surrounding),
        scan.least_dist == least_seed_dist(surrounding),
    ensures
        d == next_dist(dist, surrounding),
{
    if scan.water {
        1
    } else if scan.least_dist < dist as u16 {
        (scan.least_dist + 1) as u8
    } else {
        dist.saturating_add(1)
    }
}

/// Whether the floor rule asks for a roll on these cells.
pub fn tick_floor_wants_roll(
    old_cell: &CellState,
    old_surrounding: &[CellState; 8],
    new_cell: &CellState,
) -> (wants: bool)
    ensures
        wants == floor_wants_roll(*old_cell, old_surrounding@, *new_cell),
{
    if is_border(old_cell) || is_border(new_cell) {
        return false;
    }
    match old_cell.floor {
        CellFloor::Empty | CellFloor::Indicator(..) => scan_floor(old_surrounding).spreads,
        CellFloor::Seed { dist, .. } => {
            let scan = scan_floor(old_surrounding);
            seed_dist_after(dist, &scan, Ghost(old_surrounding@)) <= MAX_WATER_DIST_FOR_SEED_SPREAD
        },
        _ => false,
    }
}

/// The floor rule for a roll that has been made.
pub fn tick_floor_with(
    old_cell: &CellState,
    old_surrounding: &[CellState; 8],
    new_cell: &mut CellState,
    roll: usize,
)
    ensures
        *final(new_cell) == floor_stage(*old_cell, old_surrounding@, *old(new_cell), roll),
{
    if is_border(old_cell) || is_border(new_cell) {
        return ;
    }
    match old_cell.floor {
        CellFloor::Empty | CellFloor::Indicator(..) => {
            let scan = scan_floor(old_surrounding);
            if scan.spreads && roll == 0 {
                new_cell.floor = CellFloor::Seed { height: 1, dist: MAX_WATER_DIST_FOR_SEED_SPREAD };
            }
        },
        CellFloor::Water { .. } | CellFloor::Lava { .. } | CellFloor::Turf | CellFloor::DeadSeed => {},
        CellFloor::Seed { height, dist } => {
            let scan = scan_floor(old_surrounding);
            let new_dist = seed_dist_after(dist, &scan, Ghost(old_surrounding@));
            let mut new_height = height;
            if new_dist <= MAX_WATER_DIST_FOR_SEED_SPREAD {
                if roll == 0 {
                    new_height = new_height.saturating_add(1);
                }
            } else {
                new_height = new_height.saturating_sub(1);
            }
            if new_dist > MAX_WATER_DIST {
                new_cell.floor = CellFloor::Empty;
            } else {
                new_cell.floor = CellFloor::Seed { height: new_height, dist: new_dist };
            }
        },
    }
}

/// The floor rule, with a roll of its own where the rule asks for one. Which
/// roll was made is not known to the caller; the cell is what the rule gives
/// for one of the hundred.
pub fn tick_floor(old_cell: &CellState, old_surrounding: &[CellState; 8], new_cell: &mut CellState)
    ensures
        exists|roll: usize|
            roll < 100 && *final(new_cell) == #[trigger] floor_stage(
                *old_cell,
                old_surrounding@,
                *old(new_cell),
                roll,
            ),
{
    let roll = if tick_floor_wants_roll(old_cell, old_surrounding, new_cell) {
        roll_percent()
    } else {
        1
    };
    tick_floor_with(old_cell, old_surrounding, new_cell, roll);
}

// ---------------------------------------------------------------------------
// The object
// ---------------------------------------------------------------------------

/// The colour of a piece of the snake's trail one tick later.
pub open spec fn next_color(color: SnakeColor) -> SnakeColor {
    match color {
        SnakeColor::Head | SnakeColor::LightRed => SnakeColor::DarkRed,
        SnakeColor::DarkRed => SnakeColor::LightRed,
    }
}

/// The object rule: a piece of trail and a piece of food lose one tick of
/// life, and go with their last one. A piece laid down with a life of `n` is
/// there for `n - 1` ticks and gone after the `n`-th. Walls and borders
/// stay.
pub open spec fn object_stage(old_cell: CellState, new_cell: CellState) -> CellState {
    match old_cell.obj {
        CellObject::Snake(color, life) => if life >= 2 {
            CellState { obj: CellObject::Snake(next_color(color), (life - 1) as usize), ..new_cell }
        } else {
            CellState { obj: CellObject::Nothing, ..new_cell }
        },
        CellObject::Food(life) => if life >= 2 {
            CellState { obj: CellObject::Food((life - 1) as usize), ..new_cell }
        } else {
            CellState { obj: CellObject::Nothing, ..new_cell }
        },
        _ => new_cell,
    }
}

pub fn tick_object(old_cell: &CellState, new_cell: &mut CellState)
    ensures
        *final(new_cell) == object_stage(*old_cell, *old(new_cell)),
{
    match old_cell.obj {
        CellObject::Nothing => {},
        CellObject::Wall => {},
        CellObject::Snake(color, life) => {
            if life >= 2 {
                let new_color = match color {
                    SnakeColor::Head | SnakeColor::LightRed => SnakeColor::DarkRed,
                    SnakeColor::DarkRed => SnakeColor::LightRed,
                };
                new_cell.obj = CellObject::Snake(new_color, life - 1);
            } else {
                new_cell.obj = CellObject::Nothing;
            }
        },
        CellObject::Food(life) => {
            if life >= 2 {
                new_cell.obj = CellObject::Food(life - 1);
            } else {
                new_cell.obj = CellObject::Nothing;
            }
        },
        CellObject::Border => {},
    }
}

// ---------------------------------------------------------------------------
// The liquid
// ---------------------------------------------------------------------------

/// Liquid neither enters nor leaves a border cell or a cell of turf.
pub open spec fn takes_part(cell: CellState) -> bool {
    !(cell.obj is Border) && !(cell.floor is Turf)
}

/// Whether liquid can flow from `from` to `to`: only downhill, from the
/// higher roof to the lower one.
pub open spec fn can_flow(to: CellState, from: CellState) -> bool {
    &&& takes_part(to)
    &&& takes_part(from)
    &&& to.roof() < from.roof()
}

/// Whether `from` holds a unit of liquid that can flow to `to`.
pub open spec fn gives(from: CellState, to: CellState) -> bool {
    &&& from.floor.is_liquid()
    &&& from.floor.height() >= 1
    &&& can_flow(to, from)
}

/// The depth of the first lava among `cells` from index `i` on.
pub open spec fn first_lava_from(cells: Seq<CellState>, i: int) -> Option<u8>
    decreases cells.len() - i,
{
    if i < 0 || i >= cells.len() {
        None
    } else {
        match cells[i].floor {
            CellFloor::Lava { depth } => Some(depth),
            _ => first_lava_from(cells, i + 1),
        }
    }
}

/// A seed that touches lava burns.
pub open spec fn burns(cell: CellState, surrounding: Seq<CellState>) -> bool {
    cell.floor is Seed && first_lava_from(surrounding, 0) is Some
}

/// The liquid that stays on `cell` after it has given: its depth, less one
/// unit where the neighbour it picked can take one.
pub open spec fn kept_depth(cell: CellState, surrounding: Seq<CellState>, own_draw: usize) -> int {
    if gives(cell, surrounding[own_draw as int]) {
        cell.floor.height() - 1
    } else {
        cell.floor.height() as int
    }
}

/// Whether `cell` receives a unit from its `i`-th neighbour: the neighbour
/// can give to it, and the neighbour's own pick, seen from the neighbour,
/// is this cell. The neighbour counts its neighbours in the same order, in
/// which this cell is number `7 - i`.
pub open spec fn receives(
    cell: CellState,
    surrounding: Seq<CellState>,
    draws: Seq<usize>,
    i: int,
) -> bool {
    gives(surrounding[i], cell) && draws[i] == 7 - i
}

/// The units of water (`water`) or of lava (`!water`) that `cell` receives
/// from its first `n` neighbours.
pub open spec fn incoming(
    cell: CellState,
    surrounding: Seq<CellState>,
    draws: Seq<usize>,
    water: bool,
    n: int,
) -> int
    decreases n,
{
    if n <= 0 {
        0
    } else {
        incoming(cell, surrounding, draws, water, n - 1) + if receives(
            cell,
            surrounding,
            draws,
            n - 1,
        ) && (surrounding[n - 1].floor is Water) == water {
            1int
        } else {
            0int
        }
    }
}

/// All the water on `cell` after giving and receiving, capped at 255.
pub open spec fn water_total(
    cell: CellState,
    surrounding: Seq<CellState>,
    own_draw: usize,
    draws: Seq<usize>,
) -> u8 {
    cap(
        incoming(cell, surrounding, draws, true, 8) + if cell.floor is Water {
            kept_depth(cell, surrounding, own_draw)
        } else {
            0
        },
    )
}

/// All the lava on `cell` after giving and receiving, capped at 255.
pub open spec fn lava_total(
    cell: CellState,
    surrounding: Seq<CellState>,
    own_draw: usize,
    draws: Seq<usize>,
) -> u8 {
    cap(
        incoming(cell, surrounding, draws, false, 8) + if cell.floor is Lava {
            kept_depth(cell, surrounding, own_draw)
        } else {
            0
        },
    )
}

/// Water and lava on one cell cancel unit for unit and harden into ground.
/// What is left of the larger one is the new floor. Where nothing is left, a
/// cell that held liquid is empty and any other cell keeps its floor.
pub open spec fn settle(old_cell: CellState, new_cell: CellState, water: u8, lava: u8) -> CellState {
    if water < lava {
        CellState {
            floor: CellFloor::Lava { depth: (lava - water) as u8 },
            elev: sat_add(old_cell.elev, water),
            ..new_cell
        }
    } else if water == lava {
        CellState {
            floor: if old_cell.floor.is_liquid() {
                CellFloor::Empty
            } else {
                old_cell.floor
            },
            elev: sat_add(old_cell.elev, water),
            ..new_cell
        }
    } else {
        CellState {
            floor: CellFloor::Water { depth: (water - lava) as u8 },
            elev: sat_add(old_cell.elev, lava),
            ..new_cell
        }
    }
}

/// The liquid rule. `own_draw` is the neighbour that the cell picked,
/// `draws[i]` the neighbour that its `i`-th neighbour picked.
/// - A border cell never changes.
/// - A seed that touches lava becomes lava as deep as the first lava around
///   it, whatever flows in.
/// - Any other cell gives at most one unit to the neighbour it picked,
///   receives one unit from each neighbour that picked it and can give, and
///   settles what it then holds.
pub open spec fn liquid_stage(
    old_cell: CellState,
    surrounding: Seq<CellState>,
    new_cell: CellState,
    own_draw: usize,
    draws: Seq<usize>,
) -> CellState {
    if !takes_part(old_cell) {
        new_cell
    } else if burns(old_cell, surrounding) {
        CellState {
            floor: CellFloor::Lava { depth: first_lava_from(surrounding, 0).unwrap() },
            ..new_cell
        }
    } else {
        settle(
            old_cell,
            new_cell,
            water_total(old_cell, surrounding, own_draw, draws),
            lava_total(old_cell, surrounding, own_draw, draws),
        )
    }
}

pub fn can_participate_in_liquid_flow(cell: &CellState) -> (b: bool)
    ensures
        b == takes_part(*cell),
{
    match (cell.obj, cell.floor) {
        (CellObject::Border, _) => false,
        (_, CellFloor::Turf) => false,
        _ => true,
    }
}

pub fn can_liquid_flow(to: &CellState, from: &CellState) -> (b: bool)
    ensures
        b == can_flow(*to, *from),
{
    if !can_participate_in_liquid_flow(to) || !can_participate_in_liquid_flow(from) {
        return false;
    }
    to.roof() < from.roof()
}

/// Whether `from` holds a unit of liquid that can flow to `to`.
pub fn can_give(from: &CellState, to: &CellState) -> (b: bool)
    ensures
        b == gives(*from, *to),
{
    match from.floor {
        CellFloor::Water { depth } | CellFloor::Lava { depth } => depth >= 1 && can_liquid_flow(
            to,
            from,
        ),
        _ => false,
    }
}

/// The depth of the first lava among the neighbours.
pub fn first_lava(surrounding: &[CellState; 8]) -> (depth: Option<u8>)
    ensures
        depth == first_lava_from(surrounding@, 0),
{
    let mut i: usize = 0;
    while i < 8
        invariant
            i <= 8,
            first_lava_from(surrounding@, 0) == first_lava_from(surrounding@, i as int),
        decreases 8 - i,
    {
        if let CellFloor::Lava { depth } = surrounding[i].floor {
            return Some(depth);
        }
        i += 1;
    }
    None
}

/// The liquid rule for draws that have been made.
pub fn liquid_flow_with(
    old_cell: &CellState,
    old_surrounding: &[CellState; 8],
    new_cell: &mut CellState,
    own_draw: usize,
    draws: &[usize; 8],
)
    requires
        own_draw < 8,
    ensures
        *final(new_cell) == liquid_stage(
            *old_cell,
            old_surrounding@,
            *old(new_cell),
            own_draw,
            draws@,
        ),
{
    if !can_participate_in_liquid_flow(old_cell) {
        return ;
    }
    if let CellFloor::Seed { .. } = old_cell.floor {
        if let Some(depth) = first_lava(old_surrounding) {
            new_cell.floor = CellFloor::Lava { depth };
            return ;
        }
    }
    // Give.
    let kept: u8 = match old_cell.floor {
        CellFloor::Water { depth } | CellFloor::Lava { depth } => if can_give(
            old_cell,
            &old_surrounding[own_draw],
        ) {
            depth - 1
        } else {
            depth
        },
        _ => 0,
    };
    // Receive.
    let mut water: u8 = 0;
    let mut lava: u8 = 0;
    let mut i: usize = 0;
    while i < 8
        invariant
            i <= 8,
            water == incoming(*old_cell, old_surrounding@, draws@, true, i as int),
            lava == incoming(*old_cell, old_surrounding@, draws@, false, i as int),
            water <= i,
            lava <= i,
        decreases 8 - i,
    {
        let from = &old_surrounding[i];
        if can_give(from, old_cell) && draws[i] == 7 - i {
            match from.floor {
                CellFloor::Water { .. } => {
                    water += 1;
                },
                _ => {
                    lava += 1;
                },
            }
        }
        i += 1;
    }
    match old_cell.floor {
        CellFloor::Water { .. } => {
            water = water.saturating_add(kept);
        },
        CellFloor::Lava { .. } => {
            lava = lava.saturating_add(kept);
        },
        _ => {},
    }
    if water < lava {
        new_cell.elev = old_cell.elev.saturating_add(water);
        new_cell.floor = CellFloor::Lava { depth: lava - water };
    } else if water == lava {
        new_cell.elev = old_cell.elev.saturating_add(water);
        new_cell.floor = match old_cell.floor {
            CellFloor::Water { .. } | CellFloor::Lava { .. } => CellFloor::Empty,
            floor => floor,
        };
    } else {
        new_cell.elev = old_cell.elev.saturating_add(lava);
        new_cell.floor = CellFloor::Water { depth: water - lava };
    }
}

/// The place of the `i`-th neighbour of the cell at `coord`.
pub open spec fn neighbor(coord: Coord, i: int) -> Coord {
    Coord {
        x: (coord.x + neighbor_offset(i).0) as usize,
        y: (coord.y + neighbor_offset(i).1) as usize,
    }
}

/// The picks of the eight neighbours of the cell at `coord`.
pub open spec fn neighbor_draws(coord: Coord, frame_num: usize, salt: u32) -> Seq<usize> {
    Seq::new(8, |i: int| draw_of(neighbor(coord, i), frame_num, salt))
}

/// Whether `coord` has all of its eight neighbours among the coordinates.
pub open spec fn has_neighbors(coord: Coord) -> bool {
    0 < coord.x < usize::MAX && 0 < coord.y < usize::MAX
}

pub fn neighbor_coord(coord: Coord, i: usize) -> (c: Coord)
    requires
        i < 8,
        has_neighbors(coord),
    ensures
        c == neighbor(coord, i as int),
{
    let Coord { x, y } = coord;
    match i {
        0 => Coord { x: x - 1, y: y - 1 },
        1 => Coord { x, y: y - 1 },
        2 => Coord { x: x + 1, y: y - 1 },
        3 => Coord { x: x - 1, y },
        4 => Coord { x: x + 1, y },
        5 => Coord { x: x - 1, y: y + 1 },
        6 => Coord { x, y: y + 1 },
        _ => Coord { x: x + 1, y: y + 1 },
    }
}

/// The count of incoming units looks only at the picks of neighbours that can
/// give.
pub proof fn lemma_incoming_same_draws(
    cell: CellState,
    surrounding: Seq<CellState>,
    draws: Seq<usize>,
    other: Seq<usize>,
    water: bool,
    n: int,
)
    requires
        forall|i: int| 0 <= i < n && gives(#[trigger] surrounding[i], cell) ==> draws[i] == other[i],
    ensures
        incoming(cell, surrounding, draws, water, n) == incoming(cell, surrounding, other, water, n),
    decreases n,
{
    if n > 0 {
        lemma_incoming_same_draws(cell, surrounding, draws, other, water, n - 1);
    }
}

/// The liquid rule looks at a cell's own pick only where the cell holds
/// liquid, and at a neighbour's pick only where that neighbour can give.
pub proof fn lemma_liquid_stage_same_draws(
    old_cell: CellState,
    surrounding: Seq<CellState>,
    new_cell: CellState,
    own_draw: usize,
    draws: Seq<usize>,
    other_own: usize,
    other: Seq<usize>,
)
    requires
        takes_part(old_cell) && !burns(old_cell, surrounding) ==> {
            &&& old_cell.floor.is_liquid() && old_cell.floor.height() >= 1 ==> own_draw == other_own
            &&& forall|i: int|
                0 <= i < 8 && gives(#[trigger] surrounding[i], old_cell) ==> draws[i] == other[i]
        },
    ensures
        liquid_stage(old_cell, surrounding, new_cell, own_draw, draws) == liquid_stage(
            old_cell,
            surrounding,
            new_cell,
            other_own,
            other,
        ),
{
    if takes_part(old_cell) && !burns(old_cell, surrounding) {
        lemma_incoming_same_draws(old_cell, surrounding, draws, other, true, 8);
        lemma_incoming_same_draws(old_cell, surrounding, draws, other, false, 8);
    }
}

/// The liquid rule with the draws that belong to the cell at `coord` on the
/// frame of `s`. A draw is worked out only where the rule looks at it.
pub fn liquid_flow(
    old_cell: &CellState,
    old_surrounding: &[CellState; 8],
    new_cell: &mut CellState,
    coord: Coord,
    s: &GameState,
)
    requires
        has_neighbors(coord),
    ensures
        *final(new_cell) == liquid_stage(
            *old_cell,
            old_surrounding@,
            *old(new_cell),
            draw_of(coord, s.frame_num, s.salt),
            neighbor_draws(coord, s.frame_num, s.salt),
        ),
        draw_of(coord, s.frame_num, s.salt) < 8,
        forall|i: int| 0 <= i < 8 ==> (#[trigger] neighbor_draws(coord, s.frame_num, s.salt)[i]) < 8,
        old_cell.obj is Border ==> *final(new_cell) == *old(new_cell),
{
    let mut own_draw: usize = 0;
    let mut draws: [usize; 8] = [8; 8];
    let burning = match old_cell.floor {
        CellFloor::Seed { .. } => first_lava(old_surrounding).is_some(),
        _ => false,
    };
    if can_participate_in_liquid_flow(old_cell) && !burning {
        if old_cell.floor.height() >= 1 {
            own_draw = local_draw(coord, s.frame_num, s.salt);
        }
        let mut i: usize = 0;
        while i < 8
            invariant
                i <= 8,
                has_neighbors(coord),
                forall|k: int|
                    0 <= k < i && gives(#[trigger] old_surrounding@[k], *old_cell) ==> draws@[k]
                        == draw_of(neighbor(coord, k), s.frame_num, s.salt),
            decreases 8 - i,
        {
            if can_give(&old_surrounding[i], old_cell) {
                draws[i] = local_draw(neighbor_coord(coord, i), s.frame_num, s.salt);
            }
            i += 1;
        }
    }
    proof {
        lemma_liquid_stage_same_draws(
            *old_cell,
            old_surrounding@,
            *new_cell,
            own_draw,
            draws@,
            draw_of(coord, s.frame_num, s.salt),
            neighbor_draws(coord, s.frame_num, s.salt),
        );
    }
    liquid_flow_with(old_cell, old_surrounding, new_cell, own_draw, &draws);
}

// ---------------------------------------------------------------------------
// The three rules in turn
// ---------------------------------------------------------------------------

/// One tick of one cell: the floor rule, then the object rule and the liquid
/// rule, each on the cell as the rule before it left it. The neighbours are
/// always those of before the tick.
pub open spec fn tick_result(
    old_cell: CellState,
    surrounding: Seq<CellState>,
    new_cell: CellState,
    roll: usize,
    own_draw: usize,
    draws: Seq<usize>,
) -> CellState {
    let floored = floor_stage(old_cell, surrounding, new_cell, roll);
    let aged = object_stage(floored, floored);
    liquid_stage(aged, surrounding, aged, own_draw, draws)
}

/// Whether `after` is what one tick makes of the cell at `coord` for one of
/// the hundred rolls.
pub open spec fn is_tick_of(
    after: CellState,
    old_cell: CellState,
    surrounding: Seq<CellState>,
    new_cell: CellState,
    coord: Coord,
    frame_num: usize,
    salt: u32,
) -> bool {
    exists|roll: usize|
        roll < 100 && after == #[trigger] tick_result(
            old_cell,
            surrounding,
            new_cell,
            roll,
            draw_of(coord, frame_num, salt),
            neighbor_draws(coord, frame_num, salt),
        )
}

/// A tick never changes a border cell: not its floor, not its elevation, and
/// not the border itself.
pub proof fn lemma_tick_keeps_border(
    old_cell: CellState,
    surrounding: Seq<CellState>,
    new_cell: CellState,
    roll: usize,
    own_draw: usize,
    draws: Seq<usize>,
)
    requires
        new_cell.obj is Border,
    ensures
        tick_result(old_cell, surrounding, new_cell, roll, own_draw, draws) == new_cell,
{
}

/// A seed next to water is at distance 1 after the tick, whatever its
/// distance was, unless the tick has turned it into liquid.
pub proof fn lemma_seed_next_to_water(
    old_cell: CellState,
    surrounding: Seq<CellState>,
    new_cell: CellState,
    roll: usize,
    own_draw: usize,
    draws: Seq<usize>,
)
    requires
        old_cell.floor is Seed,
        touches_water(surrounding),
        !(old_cell.obj is Border),
        !(new_cell.obj is Border),
    ensures
        floor_stage(old_cell, surrounding, new_cell, roll).floor is Seed,
        floor_stage(old_cell, surrounding, new_cell, roll).floor->dist == 1,
        match tick_result(old_cell, surrounding, new_cell, roll, own_draw, draws).floor {
            CellFloor::Seed { dist, .. } => dist == 1,
            floor => floor.is_liquid(),
        },
{
}

/// One tick of one cell for a roll and draws that have been made.
pub fn tick_with(
    old_cell: &CellState,
    old_surrounding: &[CellState; 8],
    new_cell: &mut CellState,
    roll: usize,
    own_draw: usize,
    draws: &[usize; 8],
)
    requires
        own_draw < 8,
    ensures
        *final(new_cell) == tick_result(
            *old_cell,
            old_surrounding@,
            *old(new_cell),
            roll,
            own_draw,
            draws@,
        ),
{
    tick_floor_with(old_cell, old_surrounding, new_cell, roll);
    let floored = *new_cell;
    tick_object(&floored, new_cell);
    let aged = *new_cell;
    liquid_flow_with(&aged, old_surrounding, new_cell, own_draw, draws);
}

/// One tick of the cell at `coord`: `old_cell` and `old_surrounding` are the
/// cell and its neighbours before the tick, `new_cell` is the cell of the
/// next generation, which the tick rewrites.
pub fn tick(
    old_cell: &CellState,
    old_surrounding: &[CellState; 8],
    new_cell: &mut CellState,
    coord: Coord,
    s: &GameState,
)
    requires
        has_neighbors(coord),
    ensures
        is_tick_of(
            *final(new_cell),
            *old_cell,
            old_surrounding@,
            *old(new_cell),
            coord,
            s.frame_num,
            s.salt,
        ),
        draw_of(coord, s.frame_num, s.salt) < 8,
        forall|i: int| 0 <= i < 8 ==> (#[trigger] neighbor_draws(coord, s.frame_num, s.salt)[i]) < 8,
        old(new_cell).obj is Border ==> *final(new_cell) == *old(new_cell),
        old_cell.floor is Seed && touches_water(old_surrounding@) && !(old_cell.obj is Border) && !(old(
            new_cell,
        ).obj is Border) ==> match final(new_cell).floor {
            CellFloor::Seed { dist, .. } => dist == 1,
            floor => floor.is_liquid(),
        },
{
    let ghost before = *new_cell;
    let roll = if tick_floor_wants_roll(old_cell, old_surrounding, new_cell) {
        roll_percent()
    } else {
        1
    };
    tick_floor_with(old_cell, old_surrounding, new_cell, roll);
    let floored = *new_cell;
    tick_object(&floored, new_cell);
    let aged = *new_cell;
    liquid_flow(&aged, old_surrounding, new_cell, coord, s);
    proof {
        let own_draw = draw_of(coord, s.frame_num, s.salt);
        let draws = neighbor_draws(coord, s.frame_num, s.salt);
        assert(*new_cell == tick_result(*old_cell, old_surrounding@, before, roll, own_draw, draws));
        if before.obj is Border {
            lemma_tick_keeps_border(*old_cell, old_surrounding@, before, roll, own_draw, draws);
        }
        if old_cell.floor is Seed && touches_water(old_surrounding@) && !(old_cell.obj is Border)
            && !(before.obj is Border) {
            lemma_seed_next_to_water(*old_cell, old_surrounding@, before, roll, own_draw, draws);
        }
    }
}

/// The water on a floor.
pub open spec fn water_on(floor: CellFloor) -> int {
    match floor {
        CellFloor::Water { depth } => depth as int,
        _ => 0,
    }
}

/// The lava on a floor.
pub open spec fn lava_on(floor: CellFloor) -> int {
    match floor {
        CellFloor::Lava { depth } => depth as int,
        _ => 0,
    }
}

/// A unit of liquid leaves a cell exactly where the neighbour that the cell
/// picked counts a unit coming in from it: both sides test the same pair of
/// cells and the same draw, and each finds the other at the opposite index.
pub proof fn lemma_give_is_received(
    grid: Seq<Seq<CellState>>,
    giver: Coord,
    i: int,
    frame_num: usize,
    salt: u32,
)
    requires
        has_neighbors(giver),
        has_neighbors(neighbor(giver, i)),
        0 <= i < 8,
    ensures
        neighbor(neighbor(giver, i), 7 - i) == giver,
        around(grid, neighbor(giver, i).x as int, neighbor(giver, i).y as int)[7 - i]
            == grid[giver.y as int][giver.x as int],
        around(grid, giver.x as int, giver.y as int)[i] == grid[neighbor(giver, i).y as int][neighbor(
            giver,
            i,
        ).x as int],
        (gives(
            grid[giver.y as int][giver.x as int],
            around(grid, giver.x as int, giver.y as int)[i],
        ) && draw_of(giver, frame_num, salt) == i) <==> receives(
            around(grid, giver.x as int, giver.y as int)[i],
            around(grid, neighbor(giver, i).x as int, neighbor(giver, i).y as int),
            neighbor_draws(neighbor(giver, i), frame_num, salt),
            7 - i,
        ),
{
}

/// The unit that a cell gives is the unit that its neighbour receives. Let
/// the cell at `giver` pick its `i`-th neighbour. Then the cell keeps one
/// unit less than it held exactly where that neighbour, looking at the cell
/// from its own side, counts a unit coming in; and no other neighbour of the
/// cell counts one from it.
pub proof fn lemma_unit_given_is_unit_received(
    grid: Seq<Seq<CellState>>,
    giver: Coord,
    frame_num: usize,
    salt: u32,
)
    requires
        1 < giver.x < usize::MAX - 1,
        1 < giver.y < usize::MAX - 1,
    ensures
        ({
            let i = draw_of(giver, frame_num, salt) as int;
            let cell = grid[giver.y as int][giver.x as int];
            let surrounding = around(grid, giver.x as int, giver.y as int);
            let taker = neighbor(giver, i);
            &&& kept_depth(cell, surrounding, i as usize) == cell.floor.height() - 1 <==> receives(
                surrounding[i],
                around(grid, taker.x as int, taker.y as int),
                neighbor_draws(taker, frame_num, salt),
                7 - i,
            )
            &&& forall|j: int|
                0 <= j < 8 && j != i ==> !receives(
                    #[trigger] surrounding[j],
                    around(grid, neighbor(giver, j).x as int, neighbor(giver, j).y as int),
                    neighbor_draws(neighbor(giver, j), frame_num, salt),
                    7 - j,
                )
        }),
{
    let i = draw_of(giver, frame_num, salt) as int;
    lemma_give_is_received(grid, giver, i, frame_num, salt);
    let surrounding = around(grid, giver.x as int, giver.y as int);
    assert forall|j: int| 0 <= j < 8 && j != i implies !receives(
        #[trigger] surrounding[j],
        around(grid, neighbor(giver, j).x as int, neighbor(giver, j).y as int),
        neighbor_draws(neighbor(giver, j), frame_num, salt),
        7 - j,
    ) by {
        lemma_give_is_received(grid, giver, j, frame_num, salt);
    }
}

/// A cell receives from no neighbour but one that holds liquid: among
/// neighbours of which only the `i`-th holds any, it receives one unit of
/// that neighbour's kind where that neighbour gives and has picked it, and
/// nothing else.
pub proof fn lemma_incoming_from_one(
    cell: CellState,
    surrounding: Seq<CellState>,
    draws: Seq<usize>,
    water: bool,
    i: int,
    n: int,
)
    requires
        0 <= n,
        forall|j: int| 0 <= j < n && j != i ==> !(#[trigger] surrounding[j]).floor.is_liquid(),
    ensures
        incoming(cell, surrounding, draws, water, n) == if 0 <= i < n && receives(
            cell,
            surrounding,
            draws,
            i,
        ) && (surrounding[i].floor is Water) == water {
            1int
        } else {
            0int
        },
    decreases n,
{
    if n > 0 {
        lemma_incoming_from_one(cell, surrounding, draws, water, i, n - 1);
        if n - 1 != i {
            assert(!surrounding[n - 1].floor.is_liquid());
        }
    }
}

/// Liquid with no liquid around it. The cell keeps its depth less one where
/// the neighbour it picked can take a unit, and its whole depth else; with
/// nothing left it is empty. Its elevation stays.
pub proof fn lemma_lone_liquid(
    cell: CellState,
    surrounding: Seq<CellState>,
    own_draw: usize,
    draws: Seq<usize>,
)
    requires
        takes_part(cell),
        cell.floor.is_liquid(),
        cell.floor.height() >= 1,
        forall|j: int| 0 <= j < 8 ==> !(#[trigger] surrounding[j]).floor.is_liquid(),
    ensures
        ({
            let after = liquid_stage(cell, surrounding, cell, own_draw, draws);
            let kept = if can_flow(surrounding[own_draw as int], cell) {
                cell.floor.height() - 1
            } else {
                cell.floor.height() as int
            };
            &&& after.elev == cell.elev
            &&& after.obj == cell.obj
            &&& after.floor == if kept == 0 {
                CellFloor::Empty
            } else if cell.floor is Water {
                CellFloor::Water { depth: kept as u8 }
            } else {
                CellFloor::Lava { depth: kept as u8 }
            }
        }),
{
    lemma_incoming_from_one(cell, surrounding, draws, true, -1, 8);
    lemma_incoming_from_one(cell, surrounding, draws, false, -1, 8);
}

/// Empty ground next to one cell of water that stands higher, with no other
/// liquid around. The ground becomes water of depth 1 where that neighbour
/// has picked it, which the neighbour shows by the pick `7 - i`, and stays
/// empty else. Its elevation stays.
pub proof fn lemma_one_giver(
    cell: CellState,
    surrounding: Seq<CellState>,
    own_draw: usize,
    draws: Seq<usize>,
    i: int,
)
    requires
        0 <= i < 8,
        cell.floor is Empty,
        takes_part(cell),
        surrounding[i].floor is Water,
        surrounding[i].floor.height() >= 1,
        takes_part(surrounding[i]),
        cell.roof() < surrounding[i].roof(),
        forall|j: int| 0 <= j < 8 && j != i ==> !(#[trigger] surrounding[j]).floor.is_liquid(),
    ensures
        ({
            let after = liquid_stage(cell, surrounding, cell, own_draw, draws);
            &&& after.elev == cell.elev
            &&& after.obj == cell.obj
            &&& after.floor == if draws[i] == 7 - i {
                CellFloor::Water { depth: 1 }
            } else {
                CellFloor::Empty
            }
        }),
{
    lemma_incoming_from_one(cell, surrounding, draws, true, i, 8);
    lemma_incoming_from_one(cell, surrounding, draws, false, i, 8);
}

/// A tick leaves a wall standing.
pub proof fn lemma_tick_keeps_wall(
    old_cell: CellState,
    surrounding: Seq<CellState>,
    new_cell: CellState,
    roll: usize,
    own_draw: usize,
    draws: Seq<usize>,
)
    requires
        new_cell.obj is Wall,
    ensures
        tick_result(old_cell, surrounding, new_cell, roll, own_draw, draws).obj is Wall,
{
}

/// What the liquid rule does to a cell that neither is a border nor burns:
/// - the cell gives a unit exactly where the neighbour it picked can take
///   one;
/// - the water and the lava it then holds are what it kept and what came in,
///   each capped at 255;
/// - the two cancel unit for unit: the water less the lava is the same after
///   settling as before, and the ground has risen by what cancelled.
pub proof fn lemma_liquid_is_accounted_for(
    old_cell: CellState,
    surrounding: Seq<CellState>,
    new_cell: CellState,
    own_draw: usize,
    draws: Seq<usize>,
)
    requires
        takes_part(old_cell),
        !burns(old_cell, surrounding),
    ensures
        ({
            let after = liquid_stage(old_cell, surrounding, new_cell, own_draw, draws);
            let water = water_total(old_cell, surrounding, own_draw, draws);
            let lava = lava_total(old_cell, surrounding, own_draw, draws);
            let given: int = if gives(old_cell, surrounding[own_draw as int]) {
                1
            } else {
                0
            };
            &&& water == cap(
                water_on(old_cell.floor) - (if old_cell.floor is Water {
                    given
                } else {
                    0
                }) + incoming(old_cell, surrounding, draws, true, 8),
            )
            &&& lava == cap(
                lava_on(old_cell.floor) - (if old_cell.floor is Lava {
                    given
                } else {
                    0
                }) + incoming(old_cell, surrounding, draws, false, 8),
            )
            &&& water_on(after.floor) - lava_on(after.floor) == water - lava
            &&& after.elev == sat_add(
                old_cell.elev,
                if water < lava {
                    water
                } else {
                    lava
                },
            )
        }),
{
}

/// A cell receives at most one unit from each of its neighbours.
pub proof fn lemma_incoming_bounds(
    cell: CellState,
    surrounding: Seq<CellState>,
    draws: Seq<usize>,
    water: bool,
    n: int,
)
    requires
        0 <= n,
    ensures
        0 <= incoming(cell, surrounding, draws, water, n) <= n,
    decreases n,
{
    if n > 0 {
        lemma_incoming_bounds(cell, surrounding, draws, water, n - 1);
    }
}

} // verus!
