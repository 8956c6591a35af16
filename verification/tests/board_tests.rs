use snaek::art::{PlusLava, PlusSeed, PlusWater};
use snaek::shapes::{BoardArt, Canvas};
use snaek::board::{cell_from_bytes, Board};
use snaek::types::{CellFloor, CellObject, CellState, Coord, IndicatorType};

fn at(x: usize, y: usize) -> Coord {
    Coord { x, y }
}

#[test]
fn from_bytes_reads_rows_of_records() {
    let mut bytes = vec![0u8; 3 * 4 * 3];
    // Cell (1, 0): water at elevation 9 with fertility -1.
    bytes[3] = 1;
    bytes[4] = 9;
    bytes[5] = 255;
    // Cell (3, 2): a border.
    bytes[3 * (2 * 4 + 3)] = 4;
    // Cell (0, 1): an unknown code gives the default cell.
    bytes[3 * 4] = 200;
    bytes[3 * 4 + 1] = 7;
    let board: Board<4, 3> = Board::from_bytes(&bytes);
    assert_eq!(
        board.cell_at(at(1, 0)),
        CellState {
            floor: CellFloor::Water { depth: 1 },
            obj: CellObject::Nothing,
            elev: 9,
            fertility: -1
        }
    );
    assert_eq!(board.cell_at(at(3, 2)).obj, CellObject::Border);
    assert_eq!(board.cell_at(at(0, 1)), CellState::default());
    assert_eq!(board.cell_at(at(0, 0)), CellState::default());
}

#[test]
fn every_material_code_is_decoded() {
    let plain = |floor, obj| CellState { floor, obj, elev: 3, fertility: 4 };
    assert_eq!(cell_from_bytes(0, 3, 4), plain(CellFloor::Empty, CellObject::Nothing));
    assert_eq!(cell_from_bytes(1, 3, 4), plain(CellFloor::Water { depth: 1 }, CellObject::Nothing));
    assert_eq!(cell_from_bytes(2, 3, 4), plain(CellFloor::Lava { depth: 1 }, CellObject::Nothing));
    assert_eq!(cell_from_bytes(3, 3, 4), plain(CellFloor::Empty, CellObject::Wall));
    assert_eq!(cell_from_bytes(4, 3, 4), plain(CellFloor::Empty, CellObject::Border));
    assert_eq!(
        cell_from_bytes(5, 3, 4),
        plain(CellFloor::Seed { height: 1, dist: 0 }, CellObject::Nothing)
    );
    assert_eq!(
        cell_from_bytes(6, 3, 4),
        plain(CellFloor::Indicator(IndicatorType::Coin), CellObject::Nothing)
    );
    assert_eq!(
        cell_from_bytes(7, 3, 4),
        plain(CellFloor::Indicator(IndicatorType::PM), CellObject::Nothing)
    );
    assert_eq!(cell_from_bytes(8, 3, 4), CellState::default());
    assert_eq!(cell_from_bytes(0, 0, 128).fertility, -128);
    assert_eq!(cell_from_bytes(0, 0, 127).fertility, 127);
}

fn numbered() -> Board<5, 4> {
    let mut board: Board<5, 4> = Board::new_filled(());
    for y in 0..4 {
        for x in 0..5 {
            board.cell_at_mut(at(x, y)).elev = (10 * y + x) as u8;
        }
    }
    board
}

#[test]
fn cells_come_row_by_row() {
    let board = numbered();
    let elevs: Vec<u8> = board.cells().iter().map(|c| c.elev).collect();
    assert_eq!(
        elevs,
        vec![0, 1, 2, 3, 4, 10, 11, 12, 13, 14, 20, 21, 22, 23, 24, 30, 31, 32, 33, 34]
    );
    let inner: Vec<u8> = board.inner_cells().iter().map(|c| c.elev).collect();
    assert_eq!(inner, vec![11, 12, 13, 21, 22, 23]);
    let horiz: Vec<u8> = board.inner_cells_horiz().iter().map(|c| c.elev).collect();
    assert_eq!(horiz, vec![1, 2, 3, 11, 12, 13, 21, 22, 23, 31, 32, 33]);
}

#[test]
fn surrounding_counts_from_the_upper_left() {
    let board = numbered();
    let elevs: Vec<u8> = board.surrounding(at(2, 1)).iter().map(|c| c.elev).collect();
    assert_eq!(elevs, vec![1, 2, 3, 11, 13, 21, 22, 23]);
}

#[test]
fn new_filled_puts_the_fill_on_every_cell() {
    let board: Board<3, 2> = Board::new_filled((CellFloor::Water { depth: 2 }, 7u8));
    for cell in board.cells() {
        assert_eq!(
            cell,
            CellState {
                floor: CellFloor::Water { depth: 2 },
                obj: CellObject::Nothing,
                elev: 7,
                fertility: 0
            }
        );
    }
    let copy = board.clone();
    assert_eq!(copy.cells(), board.cells());
}

#[test]
fn pt_ignores_places_off_the_board() {
    let mut board: Board<3, 2> = Board::new_filled(());
    board.pt(at(3, 0), CellObject::Wall);
    board.pt(at(0, 2), CellObject::Wall);
    assert!(board.cells().iter().all(|c| *c == CellState::default()));
    board.pt(at(2, 1), CellObject::Wall);
    assert_eq!(board.cell_at(at(2, 1)).obj, CellObject::Wall);
}

#[test]
fn rect_leaves_out_the_far_corner() {
    let mut board: Board<5, 4> = Board::new_filled(());
    board.rect(at(3, 3), at(1, 1), CellObject::Wall);
    for y in 0..4 {
        for x in 0..5 {
            let walled = (1..3).contains(&x) && (1..3).contains(&y);
            assert_eq!(board.cell_at(at(x, y)).obj == CellObject::Wall, walled);
        }
    }
}

#[test]
fn line_fills_every_cell_of_a_straight_run() {
    let mut board: Board<10, 4> = Board::new_filled(());
    board.line(at(1, 2), at(7, 2), CellObject::Wall);
    for x in 0..10 {
        assert_eq!(board.cell_at(at(x, 2)).obj == CellObject::Wall, (1..=7).contains(&x));
        assert_eq!(board.cell_at(at(x, 1)).obj, CellObject::Nothing);
    }
}

#[test]
fn plus_water_meets_lava() {
    let mut cell = CellState::default();
    cell.update(PlusWater(3));
    assert_eq!(cell.floor, CellFloor::Water { depth: 3 });
    cell.update(PlusWater(255));
    assert_eq!(cell.floor, CellFloor::Water { depth: 255 });
    cell.update(PlusLava(5));
    assert_eq!(cell.floor, CellFloor::Water { depth: 250 });
    let mut cell = CellState::default();
    cell.update(PlusLava(4));
    cell.update(PlusWater(4));
    assert_eq!(cell.floor, CellFloor::Empty);
    cell.update(PlusLava(4));
    cell.update(PlusWater(6));
    assert_eq!(cell.floor, CellFloor::Lava { depth: 0 });
    assert_eq!(cell.elev, 4);
    let mut cell = CellState::default();
    cell.update(PlusSeed(2));
    assert_eq!(cell.floor, CellFloor::Seed { height: 2, dist: 0 });
    cell.update(PlusSeed(2));
    assert_eq!(cell.floor, CellFloor::Seed { height: 4, dist: 0 });
    cell.update(PlusWater(1));
    assert_eq!(cell.floor, CellFloor::Seed { height: 4, dist: 0 });
}

#[test]
fn matches_compares_values_and_vmatches_kinds() {
    let cell = CellState {
        floor: CellFloor::Water { depth: 3 },
        obj: CellObject::Food(2),
        elev: 5,
        fertility: 0,
    };
    assert!(cell.matches(CellFloor::Water { depth: 3 }));
    assert!(!cell.matches(CellFloor::Water { depth: 4 }));
    assert!(cell.vmatches(CellFloor::Water { depth: 4 }));
    assert!(!cell.vmatches(CellFloor::Lava { depth: 3 }));
    assert!(cell.vmatches(CellObject::Food(9)));
    assert!(!cell.matches(CellObject::Food(9)));
    assert!(cell.matches(5u8));
    assert!(!cell.matches(6u8));
    assert!(cell.vmatches(6u8));
    assert!(cell.matches((CellFloor::Water { depth: 3 }, 5u8)));
    assert!(!cell.matches((CellFloor::Water { depth: 3 }, 6u8)));
    assert!(cell.vmatches(PlusWater(1)));
    assert!(!cell.vmatches(PlusLava(1)));
}

#[test]
fn text_draws_letters_three_wide() {
    let mut board: Board<12, 7> = Board::new_filled(());
    board.text("Hi", at(1, 1), CellObject::Wall, ());
    let rows: Vec<String> = (0..7)
        .map(|y| {
            (0..12)
                .map(|x| if board.cell_at(at(x, y)).obj == CellObject::Wall { '#' } else { '.' })
                .collect()
        })
        .collect();
    assert_eq!(
        rows,
        vec![
            "............",
            ".#.#.###....",
            ".#.#..#.....",
            ".###..#.....",
            ".#.#..#.....",
            ".#.#.###....",
            "............",
        ]
    );
}
