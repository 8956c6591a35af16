use snaek::art::PlusWater;
use snaek::shapes::{
    dist, lerp, lerp_coord, random_dirs, sqrt_floor, sqrt_round, walk_along, write_letter,
    BoardArt, Canvas,
};
use snaek::board::Board;
use snaek::board_ops;
use snaek::draw::{
    get_object_color, reset_view_state, view_window, DS_HEIGHT, DS_WIDTH, INVINC_COLOR,
    SNAKE_COLOR_HEAD, WALL_COLOR,
};
use snaek::text::{char_code, decimal_digits, glyph_grid, powerup_sign, sign_grid, to_lower};
use snaek::types::{
    CellFloor, CellObject, CellState, Coord, Dir, IndicatorType, PowerupType, SnakeColor,
};

fn at(x: usize, y: usize) -> Coord {
    Coord { x, y }
}

fn picture<const W: usize, const H: usize>(board: &Board<W, H>) -> Vec<String> {
    (0..H)
        .map(|y| {
            (0..W)
                .map(|x| if board.cell_at(at(x, y)).obj == CellObject::Wall { '#' } else { '.' })
                .collect()
        })
        .collect()
}

#[test]
fn square_roots_round_down_or_to_the_nearest() {
    assert_eq!(sqrt_floor(0), 0);
    assert_eq!(sqrt_floor(15), 3);
    assert_eq!(sqrt_floor(16), 4);
    assert_eq!(sqrt_floor(17), 4);
    assert_eq!(sqrt_round(2), 1);
    assert_eq!(sqrt_round(3), 2);
    assert_eq!(sqrt_round(6), 2);
    assert_eq!(sqrt_round(7), 3);
    assert_eq!(dist(at(0, 0), at(3, 4)), 5);
    assert_eq!(dist(at(3, 4), at(0, 0)), 5);
    assert_eq!(dist(at(0, 0), at(1, 1)), 1);
    assert_eq!(dist(at(7, 7), at(7, 7)), 0);
}

#[test]
fn lerp_divides_the_way_between_two_numbers() {
    assert_eq!(lerp(0, 10, 3, 5), 6);
    assert_eq!(lerp(10, 0, 3, 5), 4);
    assert_eq!(lerp(2, 9, 0, 4), 2);
    assert_eq!(lerp(2, 9, 4, 4), 9);
    assert_eq!(lerp(2, 9, 1, 4), 3);
    assert_eq!(lerp_coord(at(0, 8), at(8, 0), 1, 4), at(2, 6));
}

#[test]
fn circle_of_radius_two() {
    let mut board: Board<11, 11> = Board::new_filled(());
    board.circle(at(5, 5), 2, CellObject::Wall);
    assert_eq!(
        picture(&board),
        vec![
            "...........",
            "...........",
            "...........",
            "....###....",
            "...#...#...",
            "...#...#...",
            "...#...#...",
            "....###....",
            "...........",
            "...........",
            "...........",
        ]
    );
}

#[test]
fn circle_near_the_corner_leaves_out_what_would_fall_before_it() {
    let mut board: Board<5, 5> = Board::new_filled(());
    board.circle(at(1, 1), 2, CellObject::Wall);
    assert_eq!(picture(&board), vec![".....", "...#.", "...#.", ".##..", "....."]);
}

#[test]
fn a_diagonal_line_is_unbroken() {
    let mut board: Board<6, 6> = Board::new_filled(());
    board.line(at(0, 0), at(5, 5), CellObject::Wall);
    for i in 0..6 {
        assert_eq!(board.cell_at(at(i, i)).obj, CellObject::Wall);
    }
    let walls = board.cells().iter().filter(|c| c.obj == CellObject::Wall).count();
    assert_eq!(walls, 6);
}

#[test]
fn a_line_fills_a_point_once_for_each_time_it_comes() {
    // A line from a place to itself has two steps, both on that place.
    let mut board: Board<3, 3> = Board::new_filled(());
    board.line(at(1, 1), at(1, 1), PlusWater(1));
    assert_eq!(board.cell_at(at(1, 1)).floor, CellFloor::Water { depth: 2 });
}

#[test]
fn letters_are_read_from_their_codes() {
    assert_eq!(char_code('a'), Some(0o25755));
    assert_eq!(char_code('.'), Some(0o00002));
    assert_eq!(char_code('A'), None);
    assert_eq!(char_code('#'), None);
    assert_eq!(to_lower('Q'), 'q');
    assert_eq!(to_lower('q'), 'q');
    assert_eq!(to_lower('1'), '1');
    let t = glyph_grid(char_code('t').unwrap());
    assert_eq!(
        t,
        [
            [true, true, true],
            [false, true, false],
            [false, true, false],
            [false, true, false],
            [false, true, false],
        ]
    );
    let seed = sign_grid(powerup_sign(PowerupType::Seed));
    assert_eq!(
        seed,
        [
            [false, true, true, true, true],
            [true, false, false, false, false],
            [false, true, true, true, false],
            [false, false, false, false, true],
            [true, true, true, true, false],
        ]
    );
}

#[test]
fn numbers_are_written_in_base_ten() {
    assert_eq!(decimal_digits(0), vec!['0']);
    assert_eq!(decimal_digits(7), vec!['7']);
    assert_eq!(decimal_digits(1203), vec!['1', '2', '0', '3']);
    assert_eq!(
        decimal_digits(usize::MAX).into_iter().collect::<String>(),
        format!("{}", usize::MAX)
    );
}

#[test]
fn write_letter_clears_the_column_behind_the_letter() {
    let mut board: Board<6, 7> = Board::new_filled(CellObject::Wall);
    let letter = glyph_grid(char_code('l').unwrap());
    write_letter(&letter, 1, 1, &mut board, CellObject::Food(1), CellObject::Nothing);
    let rows: Vec<String> = (0..7)
        .map(|y| {
            (0..6)
                .map(|x| match board.cell_at(at(x, y)).obj {
                    CellObject::Wall => '#',
                    CellObject::Food(_) => 'o',
                    _ => '.',
                })
                .collect()
        })
        .collect();
    assert_eq!(
        rows,
        vec!["######", "#o...#", "#o...#", "#o...#", "#o...#", "#ooo.#", "######"]
    );
}

#[test]
fn a_walk_fills_the_first_cell_of_another_kind() {
    let mut board: Board<200, 160> = Board::new_filled(());
    board.pt(at(5, 5), PlusWater(1));
    board.pt(at(6, 5), PlusWater(1));
    let dirs = vec![Dir::Right, Dir::Right, Dir::Down, Dir::Down];
    walk_along(&mut board, at(5, 5), &dirs, PlusWater(3));
    assert_eq!(board.cell_at(at(7, 5)).floor, CellFloor::Water { depth: 3 });
    assert_eq!(board.cell_at(at(5, 5)).floor, CellFloor::Water { depth: 1 });
    // A border is walked up to and left alone.
    board.pt(at(8, 5), CellObject::Border);
    let dirs = vec![Dir::Right, Dir::Right, Dir::Right, Dir::Right];
    walk_along(&mut board, at(5, 5), &dirs, PlusWater(3));
    assert_eq!(board.cell_at(at(8, 5)).floor, CellFloor::Empty);
    assert_eq!(board.cell_at(at(9, 5)).floor, CellFloor::Empty);
    // A walk that runs out of steps does nothing.
    let before = board.cells();
    walk_along(&mut board, at(5, 5), &vec![Dir::Right, Dir::Right], PlusWater(3));
    assert_eq!(board.cells(), before);
    assert_eq!(random_dirs(30).len(), 30);
}

#[test]
fn an_explosion_adds_water_and_spares_the_border() {
    let mut board: Board<200, 160> = Board::new_filled(());
    board.rect(at(0, 0), at(200, 1), CellObject::Border);
    board.explosion(at(5, 5), PlusWater(1));
    let cells = board.cells();
    let wet = cells.iter().filter(|c| matches!(c.floor, CellFloor::Water { .. })).count();
    assert!(1 <= wet && wet <= 30);
    assert_eq!(board.cell_at(at(5, 5)).floor, CellFloor::Water { depth: 1 });
    for x in 0..200 {
        assert_eq!(board.cell_at(at(x, 0)).floor, CellFloor::Empty);
    }
}

#[test]
fn the_view_follows_the_snake_inside_the_board() {
    assert_eq!(view_window(100, 40, 200), (80, 120));
    assert_eq!(view_window(195, 40, 200), (160, 200));
    assert_eq!(view_window(20, 40, 200), (0, 40));
    assert_eq!(view_window(5, 40, 200), (0, 200));
    assert_eq!(view_window(10, 300, 200), (0, 200));
    assert_eq!(view_window(100, 41, 200), (80, 121));
}

#[test]
fn the_head_shows_invincibility() {
    assert_eq!(get_object_color(CellObject::Wall, 0), Some(WALL_COLOR));
    assert_eq!(
        get_object_color(CellObject::Snake(SnakeColor::Head, 3), 0),
        Some(SNAKE_COLOR_HEAD)
    );
    assert_eq!(get_object_color(CellObject::Snake(SnakeColor::Head, 3), 1), Some(INVINC_COLOR));
    let v = reset_view_state();
    assert_eq!(v.debug_info.lock_uspt, 0);
    assert_eq!(
        v.debug_screen.cell_at(at(DS_WIDTH - 1, DS_HEIGHT - 1)).floor,
        CellFloor::Indicator(IndicatorType::Empty)
    );
}

fn rows() -> Vec<[u8; 4]> {
    vec![[0, 1, 2, 3], [10, 11, 12, 13], [20, 21, 22, 23]]
}

#[test]
fn rows_are_read_cell_by_cell() {
    let rows = rows();
    assert_eq!(board_ops::cell_at(&rows, at(2, 1)), 12);
    assert_eq!(board_ops::cells(&rows), vec![0, 1, 2, 3, 10, 11, 12, 13, 20, 21, 22, 23]);
    assert_eq!(board_ops::inner_cells(&rows), vec![11, 12]);
    assert_eq!(board_ops::inner_cells_horiz(&rows), vec![1, 2, 11, 12, 21, 22]);
    assert_eq!(board_ops::window(&rows, 1, 3, 1, 3), vec![11, 12, 21, 22]);
    assert_eq!(
        board_ops::surrounding(&rows),
        vec![(11, [0, 1, 2, 10, 12, 20, 21, 22]), (12, [1, 2, 3, 11, 13, 21, 22, 23])]
    );
}

#[test]
fn rows_are_changed_cell_by_cell() {
    let mut rows = rows();
    *board_ops::cell_at_mut(&mut rows, at(3, 2)) = 99;
    assert_eq!(rows[2], [20, 21, 22, 99]);
    *board_ops::cells_mut(&mut rows, 5) = 55;
    assert_eq!(rows[1], [10, 55, 12, 13]);
    *board_ops::inner_cells_mut(&mut rows, 1) = 66;
    assert_eq!(rows[1], [10, 55, 66, 13]);
    *board_ops::inner_cells_horiz_mut(&mut rows, 4) = 77;
    assert_eq!(rows[2], [20, 77, 22, 99]);
    let (coord, cell) = board_ops::inner_cells_horiz_mut_enumerate(&mut rows, 7, 3);
    assert_eq!(coord, at(2, 8));
    assert_eq!(*cell, 66);
    let (coord, cell) = board_ops::inner_cells_horiz_mut_enumerate(&mut rows, 0, 0);
    assert_eq!(coord, at(1, 0));
    assert_eq!(*cell, 1);
    let mut board: Board<4, 3> = Board::new_filled(());
    board.cells_mut(6).elev = 1;
    board.inner_cells_mut(0).elev += 2;
    board.inner_cells_horiz_mut(5).elev = 9;
    assert_eq!(board.cell_at(at(2, 1)).elev, 1);
    assert_eq!(board.cell_at(at(1, 1)).elev, 2);
    assert_eq!(board.cell_at(at(2, 2)).elev, 9);
    let cell = CellState::default();
    assert_eq!(board.cell_at(at(0, 0)), cell);
}
