use snaek::chance::local_draw;
use snaek::logic::{
    can_liquid_flow, liquid_flow_with, tick_floor, tick_floor_with, tick_object, tick_with,
};
use snaek::types::{CellFloor, CellObject, CellState, Coord, SnakeColor};

fn ground(elev: u8) -> CellState {
    CellState { floor: CellFloor::Empty, obj: CellObject::Nothing, elev, fertility: 0 }
}

fn floor(floor: CellFloor, elev: u8) -> CellState {
    CellState { floor, obj: CellObject::Nothing, elev, fertility: 0 }
}

#[test]
fn seed_next_to_water_is_at_distance_one() {
    let old = floor(CellFloor::Seed { height: 3, dist: 9 }, 0);
    let mut around = [ground(0); 8];
    around[6] = floor(CellFloor::Water { depth: 1 }, 0);
    around[1] = floor(CellFloor::Seed { height: 1, dist: 4 }, 0);
    let mut new = old;
    tick_with(&old, &around, &mut new, 5, 0, &[0; 8]);
    assert_eq!(new.floor, CellFloor::Seed { height: 3, dist: 1 });
    let mut grown = old;
    tick_with(&old, &around, &mut grown, 0, 0, &[0; 8]);
    assert_eq!(grown.floor, CellFloor::Seed { height: 4, dist: 1 });
}

#[test]
fn seed_takes_the_least_distance_around_it_plus_one() {
    let old = floor(CellFloor::Seed { height: 3, dist: 9 }, 0);
    let mut around = [ground(0); 8];
    around[0] = floor(CellFloor::Seed { height: 1, dist: 5 }, 0);
    around[7] = floor(CellFloor::Seed { height: 1, dist: 2 }, 0);
    let mut new = old;
    tick_floor_with(&old, &around, &mut new, 1);
    assert_eq!(new.floor, CellFloor::Seed { height: 3, dist: 3 });
}

#[test]
fn seed_without_a_way_to_water_ages_and_dies() {
    let around = [ground(0); 8];
    let old = floor(CellFloor::Seed { height: 3, dist: 10 }, 0);
    let mut new = old;
    tick_floor_with(&old, &around, &mut new, 0);
    assert_eq!(new.floor, CellFloor::Seed { height: 2, dist: 11 });
    let old = floor(CellFloor::Seed { height: 3, dist: 20 }, 0);
    let mut new = old;
    tick_floor_with(&old, &around, &mut new, 0);
    assert_eq!(new.floor, CellFloor::Empty);
}

#[test]
fn empty_ground_next_to_a_seed_sprouts_on_a_zero_roll() {
    let old = ground(2);
    let mut around = [ground(0); 8];
    around[4] = floor(CellFloor::Seed { height: 9, dist: 3 }, 0);
    let mut new = old;
    tick_floor_with(&old, &around, &mut new, 0);
    assert_eq!(new.floor, CellFloor::Seed { height: 1, dist: 10 });
    assert_eq!(new.elev, 2);
    let mut new = old;
    tick_floor_with(&old, &around, &mut new, 1);
    assert_eq!(new, old);
    // A seed too far from water does not spread.
    around[4] = floor(CellFloor::Seed { height: 9, dist: 10 }, 0);
    let mut new = old;
    tick_floor_with(&old, &around, &mut new, 0);
    assert_eq!(new, old);
}

#[test]
fn tick_floor_gives_one_of_the_two_outcomes() {
    let old = ground(0);
    let mut around = [ground(0); 8];
    around[4] = floor(CellFloor::Seed { height: 9, dist: 3 }, 0);
    for _ in 0..50 {
        let mut new = old;
        tick_floor(&old, &around, &mut new);
        assert!(new == old || new.floor == CellFloor::Seed { height: 1, dist: 10 });
    }
}

#[test]
fn snake_and_food_lose_life_and_go() {
    let mut cell = ground(0);
    cell.obj = CellObject::Snake(SnakeColor::Head, 3);
    let old = cell;
    tick_object(&old, &mut cell);
    assert_eq!(cell.obj, CellObject::Snake(SnakeColor::DarkRed, 2));
    let old = cell;
    tick_object(&old, &mut cell);
    assert_eq!(cell.obj, CellObject::Snake(SnakeColor::LightRed, 1));
    let old = cell;
    tick_object(&old, &mut cell);
    assert_eq!(cell.obj, CellObject::Nothing);
    assert_eq!(cell.floor, CellFloor::Empty);
    cell.obj = CellObject::Snake(SnakeColor::Head, 1);
    let old = cell;
    tick_object(&old, &mut cell);
    assert_eq!(cell.obj, CellObject::Nothing);
    cell.obj = CellObject::Snake(SnakeColor::DarkRed, 0);
    let old = cell;
    tick_object(&old, &mut cell);
    assert_eq!(cell.obj, CellObject::Nothing);
    cell.obj = CellObject::Food(2);
    let old = cell;
    tick_object(&old, &mut cell);
    assert_eq!(cell.obj, CellObject::Food(1));
    let old = cell;
    tick_object(&old, &mut cell);
    assert_eq!(cell.obj, CellObject::Nothing);
    cell.obj = CellObject::Wall;
    let old = cell;
    tick_object(&old, &mut cell);
    assert_eq!(cell.obj, CellObject::Wall);
    cell.obj = CellObject::Border;
    let old = cell;
    tick_object(&old, &mut cell);
    assert_eq!(cell.obj, CellObject::Border);
}

#[test]
fn water_gives_one_unit_downhill() {
    let old = floor(CellFloor::Water { depth: 5 }, 0);
    let around = [ground(0); 8];
    let mut new = old;
    liquid_flow_with(&old, &around, &mut new, 2, &[8; 8]);
    assert_eq!(new, floor(CellFloor::Water { depth: 4 }, 0));
    // Not uphill.
    let mut around = [ground(0); 8];
    around[2] = ground(5);
    let mut new = old;
    liquid_flow_with(&old, &around, &mut new, 2, &[8; 8]);
    assert_eq!(new, old);
    // Not across a border.
    let mut around = [ground(0); 8];
    around[2].obj = CellObject::Border;
    let mut new = old;
    liquid_flow_with(&old, &around, &mut new, 2, &[8; 8]);
    assert_eq!(new, old);
}

#[test]
fn a_cell_receives_from_the_neighbour_that_picked_it() {
    let old = ground(0);
    let mut around = [ground(0); 8];
    around[3] = floor(CellFloor::Water { depth: 2 }, 0);
    let mut draws = [0; 8];
    draws[3] = 4;
    let mut new = old;
    liquid_flow_with(&old, &around, &mut new, 0, &draws);
    assert_eq!(new, floor(CellFloor::Water { depth: 1 }, 0));
    draws[3] = 3;
    let mut new = old;
    liquid_flow_with(&old, &around, &mut new, 0, &draws);
    assert_eq!(new, old);
}

#[test]
fn water_and_lava_cancel_into_ground() {
    // Lava 3 gives one away, receives one water: lava 2 against water 1.
    let old = floor(CellFloor::Lava { depth: 3 }, 0);
    let mut around = [ground(0); 8];
    around[0] = floor(CellFloor::Water { depth: 2 }, 5);
    let mut draws = [0; 8];
    draws[0] = 7;
    let mut new = old;
    liquid_flow_with(&old, &around, &mut new, 1, &draws);
    assert_eq!(new, floor(CellFloor::Lava { depth: 1 }, 1));
    // Water 1 keeps its unit, receives one lava: both are used up.
    let old = floor(CellFloor::Water { depth: 1 }, 0);
    let mut around = [ground(9); 8];
    around[6] = floor(CellFloor::Lava { depth: 1 }, 9);
    let mut draws = [0; 8];
    draws[6] = 1;
    let mut new = old;
    liquid_flow_with(&old, &around, &mut new, 1, &draws);
    assert_eq!(new, ground(1));
}

#[test]
fn a_seed_that_touches_lava_burns() {
    let old = floor(CellFloor::Seed { height: 4, dist: 2 }, 3);
    let mut around = [ground(0); 8];
    around[2] = floor(CellFloor::Lava { depth: 7 }, 0);
    around[5] = floor(CellFloor::Lava { depth: 9 }, 0);
    let mut new = old;
    liquid_flow_with(&old, &around, &mut new, 0, &[0; 8]);
    assert_eq!(new, floor(CellFloor::Lava { depth: 7 }, 3));
}

#[test]
fn a_border_cell_never_changes() {
    let mut old = floor(CellFloor::Water { depth: 9 }, 0);
    old.obj = CellObject::Border;
    let mut around = [ground(0); 8];
    around[1] = floor(CellFloor::Seed { height: 1, dist: 1 }, 0);
    around[3] = floor(CellFloor::Lava { depth: 200 }, 100);
    for roll in 0..3 {
        for own in 0..8 {
            let mut new = old;
            tick_with(&old, &around, &mut new, roll, own, &[4; 8]);
            assert_eq!(new, old);
        }
    }
    let mut old = ground(0);
    old.obj = CellObject::Border;
    let mut new = old;
    tick_with(&old, &around, &mut new, 0, 0, &[4; 8]);
    assert_eq!(new, old);
}

#[test]
fn liquid_flows_only_to_a_lower_roof() {
    let seed = floor(CellFloor::Seed { height: 200, dist: 1 }, 50);
    let lava = floor(CellFloor::Lava { depth: 1 }, 0);
    let water = floor(CellFloor::Water { depth: 1 }, 0);
    assert!(!can_liquid_flow(&seed, &lava));
    assert!(!can_liquid_flow(&seed, &water));
    assert!(!can_liquid_flow(&lava, &lava));
    assert!(can_liquid_flow(&lava, &seed));
    assert!(can_liquid_flow(&ground(0), &water));
    assert!(!can_liquid_flow(&ground(1), &water));
}

#[test]
fn liquid_neither_enters_nor_leaves_turf() {
    let turf = floor(CellFloor::Turf, 0);
    let water = floor(CellFloor::Water { depth: 9 }, 9);
    assert!(!can_liquid_flow(&turf, &water));
    assert!(!can_liquid_flow(&water, &turf));
    let mut around = [ground(0); 8];
    around[3] = water;
    let mut draws = [0; 8];
    draws[3] = 4;
    let mut new = turf;
    tick_with(&turf, &around, &mut new, 0, 0, &draws);
    assert_eq!(new, turf);
    // Water keeps its unit when the neighbour it picked is turf.
    let mut around = [ground(0); 8];
    around[2] = turf;
    let old = floor(CellFloor::Water { depth: 5 }, 0);
    let mut new = old;
    liquid_flow_with(&old, &around, &mut new, 2, &[8; 8]);
    assert_eq!(new, old);
}

#[test]
fn a_cell_draws_the_same_neighbour_whoever_asks() {
    for x in 1..20 {
        for frame in 0..5 {
            let coord = Coord { x, y: 3 };
            let first = local_draw(coord, frame, 77);
            assert!(first < 8);
            assert_eq!(first, local_draw(coord, frame, 77));
        }
    }
    // The draw depends on the place, the frame and the salt.
    let mut seen = [false; 8];
    for x in 1..200 {
        seen[local_draw(Coord { x, y: 1 }, 0, 0)] = true;
    }
    assert!(seen.iter().all(|s| *s));
}
