//! Ways to change a cell and ways to test one.

use vstd::prelude::*;
use crate::types::{CellFloor, CellObject, CellState, IndicatorType, PowerupType};

verus! {

/// `a + b`, capped at 255.
pub open spec fn sat_add(a: u8, b: u8) -> u8 {
    if a + b > 255 {
        255u8
    } else {
        (a + b) as u8
    }
}

/// Something that can be put onto a cell: `filled` says what the cell is
/// afterwards.
pub trait Fill {
    spec fn filled(&self, cell: CellState) -> CellState;

    fn fill(&self, cell: &mut CellState)
        ensures
            *final(cell) == self.filled(*old(cell)),
    ;
}

impl Fill for CellFloor {
    open spec fn filled(&self, cell: CellState) -> CellState {
        CellState { floor: *self, ..cell }
    }

    fn fill(&self, cell: &mut CellState) {
        cell.floor = *self;
    }
}

impl Fill for CellObject {
    open spec fn filled(&self, cell: CellState) -> CellState {
        CellState { obj: *self, ..cell }
    }

    fn fill(&self, cell: &mut CellState) {
        cell.obj = *self;
    }
}

impl Fill for IndicatorType {
    open spec fn filled(&self, cell: CellState) -> CellState {
        CellState { floor: CellFloor::Indicator(*self), ..cell }
    }

    fn fill(&self, cell: &mut CellState) {
        CellFloor::Indicator(*self).fill(cell);
    }
}

impl Fill for PowerupType {
    open spec fn filled(&self, cell: CellState) -> CellState {
        CellState { floor: CellFloor::Indicator(IndicatorType::Powerup(*self)), ..cell }
    }

    fn fill(&self, cell: &mut CellState) {
        CellFloor::Indicator(IndicatorType::Powerup(*self)).fill(cell);
    }
}

/// A bare number sets the elevation.
impl Fill for u8 {
    open spec fn filled(&self, cell: CellState) -> CellState {
        CellState { elev: *self, ..cell }
    }

    fn fill(&self, cell: &mut CellState) {
        cell.elev = *self;
    }
}

impl Fill for CellState {
    open spec fn filled(&self, cell: CellState) -> CellState {
        *self
    }

    fn fill(&self, cell: &mut CellState) {
        *cell = *self;
    }
}

/// The unit changes nothing.
impl Fill for () {
    open spec fn filled(&self, cell: CellState) -> CellState {
        cell
    }

    fn fill(&self, cell: &mut CellState) {
    }
}

/// A pair applies its first part, then its second.
impl<F1: Fill, F2: Fill> Fill for (F1, F2) {
    open spec fn filled(&self, cell: CellState) -> CellState {
        self.1.filled(self.0.filled(cell))
    }

    fn fill(&self, cell: &mut CellState) {
        self.0.fill(cell);
        self.1.fill(cell);
    }
}

/// Pours water onto a cell. Water deepens water, starts a pool on empty
/// ground, and cancels lava unit for unit; where it outweighs the lava, the
/// lava hardens into ground.
#[derive(Clone, Copy)]
pub struct PlusWater(pub u8);

impl Fill for PlusWater {
    open spec fn filled(&self, cell: CellState) -> CellState {
        match cell.floor {
            CellFloor::Water { depth } => CellState {
                floor: CellFloor::Water { depth: sat_add(depth, self.0) },
                ..cell
            },
            CellFloor::Lava { depth } => if self.0 < depth {
                CellState { floor: CellFloor::Lava { depth: (depth - self.0) as u8 }, ..cell }
            } else if self.0 == depth {
                CellState { floor: CellFloor::Empty, ..cell }
            } else {
                CellState {
                    floor: CellFloor::Lava { depth: 0 },
                    elev: sat_add(cell.elev, depth),
                    ..cell
                }
            },
            CellFloor::Empty => CellState { floor: CellFloor::Water { depth: self.0 }, ..cell },
            _ => cell,
        }
    }

    fn fill(&self, cell: &mut CellState) {
        match cell.floor {
            CellFloor::Water { depth } => {
                cell.floor = CellFloor::Water { depth: depth.saturating_add(self.0) };
            },
            CellFloor::Lava { depth } => {
                if self.0 < depth {
                    cell.floor = CellFloor::Lava { depth: depth - self.0 };
                } else if self.0 == depth {
                    cell.floor = CellFloor::Empty;
                } else {
                    cell.elev = cell.elev.saturating_add(depth);
                    cell.floor = CellFloor::Lava { depth: 0 };
                }
            },
            CellFloor::Empty => {
                cell.floor = CellFloor::Water { depth: self.0 };
            },
            _ => {},
        }
    }
}

/// Pours lava onto a cell: as `PlusWater`, with the two liquids exchanged.
#[derive(Clone, Copy)]
pub struct PlusLava(pub u8);

impl Fill for PlusLava {
    open spec fn filled(&self, cell: CellState) -> CellState {
        match cell.floor {
            CellFloor::Lava { depth } => CellState {
                floor: CellFloor::Lava { depth: sat_add(depth, self.0) },
                ..cell
            },
            CellFloor::Water { depth } => if self.0 < depth {
                CellState { floor: CellFloor::Water { depth: (depth - self.0) as u8 }, ..cell }
            } else if self.0 == depth {
                CellState { floor: CellFloor::Empty, ..cell }
            } else {
                CellState {
                    floor: CellFloor::Water { depth: 0 },
                    elev: sat_add(cell.elev, depth),
                    ..cell
                }
            },
            CellFloor::Empty => CellState { floor: CellFloor::Lava { depth: self.0 }, ..cell },
            _ => cell,
        }
    }

    fn fill(&self, cell: &mut CellState) {
        match cell.floor {
            CellFloor::Lava { depth } => {
                cell.floor = CellFloor::Lava { depth: depth.saturating_add(self.0) };
            },
            CellFloor::Water { depth } => {
                if self.0 < depth {
                    cell.floor = CellFloor::Water { depth: depth - self.0 };
                } else if self.0 == depth {
                    cell.floor = CellFloor::Empty;
                } else {
                    cell.elev = cell.elev.saturating_add(depth);
                    cell.floor = CellFloor::Water { depth: 0 };
                }
            },
            CellFloor::Empty => {
                cell.floor = CellFloor::Lava { depth: self.0 };
            },
            _ => {},
        }
    }
}

/// Sows a cell: raises whatever has a height, and plants a seed on empty
/// ground.
#[derive(Clone, Copy)]
pub struct PlusSeed(pub u8);

impl Fill for PlusSeed {
    open spec fn filled(&self, cell: CellState) -> CellState {
        match cell.floor {
            CellFloor::Lava { depth } => CellState {
                floor: CellFloor::Lava { depth: sat_add(depth, self.0) },
                ..cell
            },
            CellFloor::Water { depth } => CellState {
                floor: CellFloor::Water { depth: sat_add(depth, self.0) },
                ..cell
            },
            CellFloor::Seed { height, dist } => CellState {
                floor: CellFloor::Seed { height: sat_add(height, self.0), dist },
                ..cell
            },
            CellFloor::Empty => CellState {
                floor: CellFloor::Seed { height: self.0, dist: 0 },
                ..cell
            },
            _ => cell,
        }
    }

    fn fill(&self, cell: &mut CellState) {
        match cell.floor {
            CellFloor::Lava { depth } => {
                cell.floor = CellFloor::Lava { depth: depth.saturating_add(self.0) };
            },
            CellFloor::Water { depth } => {
                cell.floor = CellFloor::Water { depth: depth.saturating_add(self.0) };
            },
            CellFloor::Seed { height, dist } => {
                cell.floor = CellFloor::Seed { height: height.saturating_add(self.0), dist };
            },
            CellFloor::Empty => {
                cell.floor = CellFloor::Seed { height: self.0, dist: 0 };
            },
            _ => {},
        }
    }
}

/// Whether two floors are of the same kind, whatever they hold.
pub open spec fn same_floor_kind(a: CellFloor, b: CellFloor) -> bool {
    match a {
        CellFloor::Empty => b is Empty,
        CellFloor::Water { .. } => b is Water,
        CellFloor::Lava { .. } => b is Lava,
        CellFloor::Turf => b is Turf,
        CellFloor::Seed { .. } => b is Seed,
        CellFloor::DeadSeed => b is DeadSeed,
        CellFloor::Indicator(_) => b is Indicator,
    }
}

/// Whether two objects are of the same kind, whatever they hold.
pub open spec fn same_object_kind(a: CellObject, b: CellObject) -> bool {
    match a {
        CellObject::Nothing => b is Nothing,
        CellObject::Wall => b is Wall,
        CellObject::Snake(_, _) => b is Snake,
        CellObject::Food(_) => b is Food,
        CellObject::Border => b is Border,
    }
}

/// A test on a cell: `matches` compares values, `vmatches` only kinds.
pub trait CellMatch {
    spec fn matches_cell(&self, other: CellState) -> bool;

    spec fn vmatches_cell(&self, other: CellState) -> bool;

    fn matches(&self, other: &CellState) -> (b: bool)
        ensures
            b == self.matches_cell(*other),
    ;

    fn vmatches(&self, other: &CellState) -> (b: bool)
        ensures
            b == self.vmatches_cell(*other),
    ;
}

impl CellMatch for PlusWater {
    open spec fn matches_cell(&self, other: CellState) -> bool {
        other.floor is Water
    }

    open spec fn vmatches_cell(&self, other: CellState) -> bool {
        other.floor is Water
    }

    fn matches(&self, other: &CellState) -> (b: bool) {
        self.vmatches(other)
    }

    fn vmatches(&self, other: &CellState) -> (b: bool) {
        match other.floor {
            CellFloor::Water { .. } => true,
            _ => false,
        }
    }
}

impl CellMatch for PlusLava {
    open spec fn matches_cell(&self, other: CellState) -> bool {
        other.floor is Lava
    }

    open spec fn vmatches_cell(&self, other: CellState) -> bool {
        other.floor is Lava
    }

    fn matches(&self, other: &CellState) -> (b: bool) {
        self.vmatches(other)
    }

    fn vmatches(&self, other: &CellState) -> (b: bool) {
        match other.floor {
            CellFloor::Lava { .. } => true,
            _ => false,
        }
    }
}

impl CellMatch for PlusSeed {
    open spec fn matches_cell(&self, other: CellState) -> bool {
        other.floor is Seed
    }

    open spec fn vmatches_cell(&self, other: CellState) -> bool {
        other.floor is Seed
    }

    fn matches(&self, other: &CellState) -> (b: bool) {
        self.vmatches(other)
    }

    fn vmatches(&self, other: &CellState) -> (b: bool) {
        match other.floor {
            CellFloor::Seed { .. } => true,
            _ => false,
        }
    }
}

impl CellMatch for CellFloor {
    open spec fn matches_cell(&self, other: CellState) -> bool {
        *self == other.floor
    }

    open spec fn vmatches_cell(&self, other: CellState) -> bool {
        same_floor_kind(*self, other.floor)
    }

    fn matches(&self, other: &CellState) -> (b: bool) {
        *self == other.floor
    }

    fn vmatches(&self, other: &CellState) -> (b: bool) {
        match (*self, other.floor) {
            (CellFloor::Empty, CellFloor::Empty) => true,
            (CellFloor::Water { .. }, CellFloor::Water { .. }) => true,
            (CellFloor::Lava { .. }, CellFloor::Lava { .. }) => true,
            (CellFloor::Turf, CellFloor::Turf) => true,
            (CellFloor::Seed { .. }, CellFloor::Seed { .. }) => true,
            (CellFloor::DeadSeed, CellFloor::DeadSeed) => true,
            (CellFloor::Indicator(_), CellFloor::Indicator(_)) => true,
            _ => false,
        }
    }
}

impl CellMatch for CellObject {
    open spec fn matches_cell(&self, other: CellState) -> bool {
        *self == other.obj
    }

    open spec fn vmatches_cell(&self, other: CellState) -> bool {
        same_object_kind(*self, other.obj)
    }

    fn matches(&self, other: &CellState) -> (b: bool) {
        *self == other.obj
    }

    fn vmatches(&self, other: &CellState) -> (b: bool) {
        match (*self, other.obj) {
            (CellObject::Nothing, CellObject::Nothing) => true,
            (CellObject::Wall, CellObject::Wall) => true,
            (CellObject::Snake(_, _), CellObject::Snake(_, _)) => true,
            (CellObject::Food(_), CellObject::Food(_)) => true,
            (CellObject::Border, CellObject::Border) => true,
            _ => false,
        }
    }
}

/// A bare number is tested against the elevation; every cell has one.
impl CellMatch for u8 {
    open spec fn matches_cell(&self, other: CellState) -> bool {
        *self == other.elev
    }

    open spec fn vmatches_cell(&self, other: CellState) -> bool {
        true
    }

    fn matches(&self, other: &CellState) -> (b: bool) {
        *self == other.elev
    }

    fn vmatches(&self, _other: &CellState) -> (b: bool) {
        true
    }
}

/// A pair matches where both of its parts do.
impl<M1: CellMatch, M2: CellMatch> CellMatch for (M1, M2) {
    open spec fn matches_cell(&self, other: CellState) -> bool {
        self.0.matches_cell(other) && self.1.matches_cell(other)
    }

    open spec fn vmatches_cell(&self, other: CellState) -> bool {
        self.0.vmatches_cell(other) && self.1.vmatches_cell(other)
    }

    fn matches(&self, other: &CellState) -> (b: bool) {
        self.0.matches(other) && self.1.matches(other)
    }

    fn vmatches(&self, other: &CellState) -> (b: bool) {
        self.0.vmatches(other) && self.1.vmatches(other)
    }
}

impl CellMatch for CellState {
    open spec fn matches_cell(&self, other: CellState) -> bool {
        *self == other
    }

    open spec fn vmatches_cell(&self, other: CellState) -> bool {
        same_floor_kind(self.floor, other.floor) && same_object_kind(self.obj, other.obj)
    }

    fn matches(&self, other: &CellState) -> (b: bool) {
        *self == *other
    }

    fn vmatches(&self, other: &CellState) -> (b: bool) {
        self.floor.vmatches(other) && self.obj.vmatches(other)
    }
}

impl CellState {
    pub fn update(&mut self, fill: impl Fill)
        ensures
            *final(self) == fill.filled(*old(self)),
    {
        fill.fill(self);
    }

    pub fn matches(&self, other: impl CellMatch) -> (b: bool)
        ensures
            b == other.matches_cell(*self),
    {
        other.matches(self)
    }

    pub fn vmatches(&self, other: impl CellMatch) -> (b: bool)
        ensures
            b == other.vmatches_cell(*self),
    {
        other.vmatches(self)
    }
}

} // verus!
