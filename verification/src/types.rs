//! The data of one cell, and the directions and coordinates of the grid.

use vstd::prelude::*;
use std::ops::Range;
use crate::chance::random_range;

verus! {

/// The width of the board in cells.
pub const B_WIDTH: usize = 200;

/// The height of the board in cells.
pub const B_HEIGHT: usize = 160;

/// The width of the scoreboard in cells.
pub const SB_WIDTH: usize = 28;

/// The height of the scoreboard in cells.
pub const SB_HEIGHT: usize = 100;

/// The greatest fertility a cell can have.
pub const MAX_FERTILITY: i8 = 15;

/// The greatest height a seed is drawn with.
pub const MAX_SEED_HEIGHT: i8 = 30;

/// A seed whose distance to water is above this reverts to empty ground.
pub const MAX_WATER_DIST: u8 = 20;

/// A seed grows, and spreads to its neighbours, while its distance to water
/// is at most this.
pub const MAX_WATER_DIST_FOR_SEED_SPREAD: u8 = 10;

/// The budget of one logic tick, in milliseconds.
pub const LOGIC_MAX_MSPT: u64 = 100;

/// The budget of one drawn frame, in microseconds.
pub const DRAW_MAX_USPT: u128 = 16_666;

/// The number of items the shop offers at a time.
pub const NUM_SHOP_ITEMS: usize = 3;

#[derive(Clone, Copy, Hash, PartialEq, Eq, Structural, Debug)]
pub enum PowerupType {
    Water,
    Explosive,
    Shovel,
    Seed,
    Invincibility,
}

impl PowerupType {
    /// The powerup that a draw of `n` stands for: the first four in the order
    /// water, explosive, shovel, invincibility, any other draw a seed.
    pub open spec fn of_draw(n: usize) -> PowerupType {
        if n == 0 {
            PowerupType::Water
        } else if n == 1 {
            PowerupType::Explosive
        } else if n == 2 {
            PowerupType::Shovel
        } else if n == 3 {
            PowerupType::Invincibility
        } else {
            PowerupType::Seed
        }
    }

    pub fn from_draw(n: usize) -> (kind: PowerupType)
        ensures
            kind == Self::of_draw(n),
    {
        match n {
            0 => PowerupType::Water,
            1 => PowerupType::Explosive,
            2 => PowerupType::Shovel,
            3 => PowerupType::Invincibility,
            _ => PowerupType::Seed,
        }
    }
}

#[derive(Clone, Copy, Hash, PartialEq, Eq, Structural, Debug)]
pub enum IndicatorType {
    Empty,
    MSPTNormal,
    MSPTOver,
    Coin,
    PM,
    Powerup(PowerupType),
}

#[derive(Clone, Copy, Hash, PartialEq, Eq, Structural, Debug)]
pub enum SnakeColor {
    DarkRed,
    LightRed,
    Head,
}

/// What the ground of a cell is made of. Exactly one variant holds at a time.
#[derive(Clone, Copy, Hash, PartialEq, Eq, Structural, Debug)]
pub enum CellFloor {
    Empty,
    Water { depth: u8 },
    Lava { depth: u8 },
    /// Ground that liquid neither enters nor leaves.
    Turf,
    /// A plant: how tall it has grown, and how far it is from water.
    Seed { height: u8, dist: u8 },
    /// What is left of a plant. It is ground like any other.
    DeadSeed,
    /// An overlay for banners and markers; the simulation treats it as empty.
    Indicator(IndicatorType),
}

impl Default for CellFloor {
    fn default() -> (floor: CellFloor)
        ensures
            floor == CellFloor::Empty,
    {
        CellFloor::Empty
    }
}

impl CellFloor {
    /// The depth of a liquid or the height of a seed; 0 for anything else.
    pub open spec fn spec_height(&self) -> u8 {
        match *self {
            CellFloor::Empty | CellFloor::Turf | CellFloor::DeadSeed | CellFloor::Indicator(_) => 0,
            CellFloor::Water { depth } => depth,
            CellFloor::Lava { depth } => depth,
            CellFloor::Seed { height, .. } => height,
        }
    }

    #[verifier::when_used_as_spec(spec_height)]
    pub fn height(&self) -> (h: u8)
        ensures
            h == self.spec_height(),
    {
        match self {
            CellFloor::Empty | CellFloor::Turf | CellFloor::DeadSeed | CellFloor::Indicator(..) => 0,
            CellFloor::Water { depth } => *depth,
            CellFloor::Lava { depth } => *depth,
            CellFloor::Seed { height, .. } => *height,
        }
    }

    /// Whether the floor is water or lava.
    pub open spec fn is_liquid(self) -> bool {
        self is Water || self is Lava
    }
}

/// What stands on a cell.
#[derive(Clone, Copy, Hash, PartialEq, Eq, Structural, Debug)]
pub enum CellObject {
    Nothing,
    Wall,
    /// A piece of the snake's trail, with the ticks it has left.
    Snake(SnakeColor, usize),
    /// Food, with the ticks it has left.
    Food(usize),
    /// The boundary of the playable area. The simulation never changes it.
    Border,
}

impl Default for CellObject {
    fn default() -> (obj: CellObject)
        ensures
            obj == CellObject::Nothing,
    {
        CellObject::Nothing
    }
}

#[derive(Clone, Copy, Hash, PartialEq, Eq, Structural, Debug)]
pub struct CellState {
    pub floor: CellFloor,
    pub obj: CellObject,
    pub elev: u8,
    pub fertility: i8,
}

impl Default for CellState {
    fn default() -> (cell: CellState)
        ensures
            cell == CellState::empty(),
    {
        CellState { floor: CellFloor::Empty, obj: CellObject::Nothing, elev: 0, fertility: 0 }
    }
}

impl CellState {
    /// Empty ground at sea level with nothing on it.
    pub open spec fn empty() -> CellState {
        CellState { floor: CellFloor::Empty, obj: CellObject::Nothing, elev: 0, fertility: 0 }
    }

    /// The elevation plus the height of what lies on it, capped at 255.
    pub open spec fn spec_roof(&self) -> u8 {
        if self.elev + self.floor.spec_height() > 255 {
            255u8
        } else {
            (self.elev + self.floor.spec_height()) as u8
        }
    }

    #[verifier::when_used_as_spec(spec_roof)]
    pub fn roof(&self) -> (r: u8)
        ensures
            r == self.spec_roof(),
    {
        self.elev.saturating_add(self.floor.height())
    }
}

#[derive(Clone, Copy, Hash, PartialEq, Eq, Structural, Debug)]
pub enum Dir {
    Up,
    Left,
    Down,
    Right,
}

impl Dir {
    /// The step in x and in y that one move in this direction makes.
    pub open spec fn diff(self) -> (int, int) {
        match self {
            Dir::Up => (0, -1),
            Dir::Left => (-1, 0),
            Dir::Down => (0, 1),
            Dir::Right => (1, 0),
        }
    }

    /// The direction that undoes this one.
    pub open spec fn opposite(self) -> Dir {
        match self {
            Dir::Up => Dir::Down,
            Dir::Left => Dir::Right,
            Dir::Down => Dir::Up,
            Dir::Right => Dir::Left,
        }
    }

    /// The direction that a draw of `n` stands for: up, left, down for 0, 1
    /// and 2, right for any other draw.
    pub open spec fn of_draw(n: usize) -> Dir {
        if n == 0 {
            Dir::Up
        } else if n == 1 {
            Dir::Left
        } else if n == 2 {
            Dir::Down
        } else {
            Dir::Right
        }
    }

    pub fn get_diff(&self) -> (d: (isize, isize))
        ensures
            (d.0 as int, d.1 as int) == self.diff(),
    {
        match self {
            Dir::Up => (0, -1),
            Dir::Left => (-1, 0),
            Dir::Down => (0, 1),
            Dir::Right => (1, 0),
        }
    }

    pub fn is_opposite(&self, other: Dir) -> (b: bool)
        ensures
            b == (other == self.opposite()),
    {
        match (*self, other) {
            (Dir::Up, Dir::Down) => true,
            (Dir::Down, Dir::Up) => true,
            (Dir::Left, Dir::Right) => true,
            (Dir::Right, Dir::Left) => true,
            _ => false,
        }
    }

    pub fn from_draw(n: usize) -> (dir: Dir)
        ensures
            dir == Self::of_draw(n),
    {
        match n {
            0 => Dir::Up,
            1 => Dir::Left,
            2 => Dir::Down,
            _ => Dir::Right,
        }
    }
}

/// A place on the grid: the column `x` and the row `y`.
#[derive(Clone, Copy, Hash, PartialEq, Eq, Structural, Debug)]
pub struct Coord {
    pub x: usize,
    pub y: usize,
}

/// `v` brought back onto `0..limit` after one step: a step off the low edge
/// lands on the high edge, a step off the high edge on the low one.
pub open spec fn wrap(v: int, limit: int) -> int {
    if v < 0 {
        limit - 1
    } else if v >= limit {
        0
    } else {
        v
    }
}

impl Coord {
    pub open spec fn spec_in_bounds(&self) -> bool {
        self.x < B_WIDTH && self.y < B_HEIGHT
    }

    /// Where one step in `dir` leads, before any edge is considered.
    pub open spec fn moved(self, dir: Dir) -> (int, int) {
        (self.x + dir.diff().0, self.y + dir.diff().1)
    }

    /// The step in `dir` where it stays on the board.
    pub open spec fn plus_checked(self, dir: Dir) -> Option<Coord> {
        let (x, y) = self.moved(dir);
        if 0 <= x < B_WIDTH && 0 <= y < B_HEIGHT {
            Some(Coord { x: x as usize, y: y as usize })
        } else {
            None
        }
    }

    /// The step in `dir` on the board taken as a torus.
    pub open spec fn plus_wrapped(self, dir: Dir) -> Coord {
        let (x, y) = self.moved(dir);
        Coord { x: wrap(x, B_WIDTH as int) as usize, y: wrap(y, B_HEIGHT as int) as usize }
    }

    /// A place on the board, drawn at random.
    pub fn rand() -> (coord: Coord)
        ensures
            coord.in_bounds(),
    {
        Coord { x: random_range(0, B_WIDTH), y: random_range(0, B_HEIGHT) }
    }

    /// A place with its column in `x_range` and its row in `y_range`, drawn
    /// at random.
    pub fn rand_range(x_range: Range<usize>, y_range: Range<usize>) -> (coord: Coord)
        requires
            x_range.start < x_range.end,
            y_range.start < y_range.end,
        ensures
            x_range.start <= coord.x < x_range.end,
            y_range.start <= coord.y < y_range.end,
    {
        Coord {
            x: random_range(x_range.start, x_range.end),
            y: random_range(y_range.start, y_range.end),
        }
    }

    #[verifier::when_used_as_spec(spec_in_bounds)]
    pub fn in_bounds(&self) -> (b: bool)
        ensures
            b == self.spec_in_bounds(),
    {
        self.x < B_WIDTH && self.y < B_HEIGHT
    }

    /// One step in `rhs`, or `None` where that leaves the board.
    pub fn add_checked(self, rhs: Dir) -> (r: Option<Coord>)
        ensures
            r == self.plus_checked(rhs),
    {
        if !self.in_bounds() {
            // From outside the board one step reaches it only across an edge.
            return match rhs {
                Dir::Left if self.x == B_WIDTH && self.y < B_HEIGHT => Some(
                    Coord { x: B_WIDTH - 1, y: self.y },
                ),
                Dir::Up if self.y == B_HEIGHT && self.x < B_WIDTH => Some(
                    Coord { x: self.x, y: B_HEIGHT - 1 },
                ),
                _ => None,
            };
        }
        match rhs {
            Dir::Up => if self.y >= 1 {
                Some(Coord { x: self.x, y: self.y - 1 })
            } else {
                None
            },
            Dir::Left => if self.x >= 1 {
                Some(Coord { x: self.x - 1, y: self.y })
            } else {
                None
            },
            Dir::Down => if self.y + 1 < B_HEIGHT {
                Some(Coord { x: self.x, y: self.y + 1 })
            } else {
                None
            },
            Dir::Right => if self.x + 1 < B_WIDTH {
                Some(Coord { x: self.x + 1, y: self.y })
            } else {
                None
            },
        }
    }

    /// One step against `rhs`, or `None` where that leaves the board.
    pub fn sub_checked(self, rhs: Dir) -> (r: Option<Coord>)
        ensures
            r == self.plus_checked(rhs.opposite()),
    {
        let back = match rhs {
            Dir::Up => Dir::Down,
            Dir::Left => Dir::Right,
            Dir::Down => Dir::Up,
            Dir::Right => Dir::Left,
        };
        self.add_checked(back)
    }

    /// One step in `rhs`; a step off an edge comes back in at the other side.
    pub fn add_wrapped(self, rhs: Dir) -> (r: Coord)
        ensures
            r == self.plus_wrapped(rhs),
            r.in_bounds(),
    {
        let x = match rhs {
            Dir::Left => if self.x == 0 {
                B_WIDTH - 1
            } else if self.x - 1 >= B_WIDTH {
                0
            } else {
                self.x - 1
            },
            Dir::Right => if self.x >= B_WIDTH - 1 {
                0
            } else {
                self.x + 1
            },
            _ => if self.x >= B_WIDTH {
                0
            } else {
                self.x
            },
        };
        let y = match rhs {
            Dir::Up => if self.y == 0 {
                B_HEIGHT - 1
            } else if self.y - 1 >= B_HEIGHT {
                0
            } else {
                self.y - 1
            },
            Dir::Down => if self.y >= B_HEIGHT - 1 {
                0
            } else {
                self.y + 1
            },
            _ => if self.y >= B_HEIGHT {
                0
            } else {
                self.y
            },
        };
        Coord { x, y }
    }

    /// One step against `rhs`; a step off an edge comes back in at the other
    /// side.
    pub fn sub_wrapped(self, rhs: Dir) -> (r: Coord)
        ensures
            r == self.plus_wrapped(rhs.opposite()),
            r.in_bounds(),
    {
        let back = match rhs {
            Dir::Up => Dir::Down,
            Dir::Left => Dir::Right,
            Dir::Down => Dir::Up,
            Dir::Right => Dir::Left,
        };
        self.add_wrapped(back)
    }
}

impl From<(usize, usize)> for Coord {
    fn from(value: (usize, usize)) -> (c: Coord)
        ensures
            c == (Coord { x: value.0, y: value.1 }),
    {
        Coord { x: value.0, y: value.1 }
    }
}

impl vstd::std_specs::convert::FromSpecImpl<(usize, usize)> for Coord {
    open spec fn obeys_from_spec() -> bool {
        true
    }

    open spec fn from_spec(value: (usize, usize)) -> Coord {
        Coord { x: value.0, y: value.1 }
    }
}

/// On the left edge a step to the left lands on the right edge, and likewise
/// for the other three directions at their edges; away from an edge a step
/// moves by one.
pub proof fn lemma_wrapped_edges(c: Coord)
    requires
        c.in_bounds(),
    ensures
        c.x == 0 ==> c.plus_wrapped(Dir::Left) == (Coord { x: (B_WIDTH - 1) as usize, y: c.y }),
        c.x > 0 ==> c.plus_wrapped(Dir::Left) == (Coord { x: (c.x - 1) as usize, y: c.y }),
        c.x == B_WIDTH - 1 ==> c.plus_wrapped(Dir::Right) == (Coord { x: 0, y: c.y }),
        c.x < B_WIDTH - 1 ==> c.plus_wrapped(Dir::Right) == (Coord { x: (c.x + 1) as usize, y: c.y }),
        c.y == 0 ==> c.plus_wrapped(Dir::Up) == (Coord { x: c.x, y: (B_HEIGHT - 1) as usize }),
        c.y > 0 ==> c.plus_wrapped(Dir::Up) == (Coord { x: c.x, y: (c.y - 1) as usize }),
        c.y == B_HEIGHT - 1 ==> c.plus_wrapped(Dir::Down) == (Coord { x: c.x, y: 0 }),
        c.y < B_HEIGHT - 1 ==> c.plus_wrapped(Dir::Down) == (Coord { x: c.x, y: (c.y + 1) as usize }),
{
}

/// On the torus a step and the step against it cancel.
pub proof fn lemma_wrapped_step_back(c: Coord, dir: Dir)
    requires
        c.in_bounds(),
    ensures
        c.plus_wrapped(dir).plus_wrapped(dir.opposite()) == c,
        c.plus_wrapped(dir).in_bounds(),
{
}

/// Where `n` steps in `dir` lead from `c` on the torus.
pub open spec fn stepped(c: Coord, dir: Dir, n: nat) -> Coord
    decreases n,
{
    if n == 0 {
        c
    } else {
        stepped(c, dir, (n - 1) as nat).plus_wrapped(dir)
    }
}

/// `n` steps to the right move a place by `n` columns, counted round the
/// board, and leave its row.
pub proof fn lemma_steps_right(c: Coord, n: nat)
    requires
        c.in_bounds(),
    ensures
        stepped(c, Dir::Right, n) == (Coord { x: ((c.x + n) % (B_WIDTH as int)) as usize, y: c.y }),
    decreases n,
{
    if n > 0 {
        lemma_steps_right(c, (n - 1) as nat);
    }
}

} // verus!
