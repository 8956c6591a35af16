use scoped_threadpool::Pool;
use snaek::game::{
    advance_board, buy, handle_action, handle_actions, reset, sleep_micros, UserAction,
};
use snaek::levels::CurrentLevel;
use snaek::schedule::{partition, tick_board};
use snaek::state::{GameState, Level, LevelKind};
use snaek::types::{
    CellFloor, CellObject, Coord, Dir, PowerupType, SnakeColor, B_HEIGHT, B_WIDTH, SB_HEIGHT,
    SB_WIDTH,
};

fn at(x: usize, y: usize) -> Coord {
    Coord { x, y }
}

/// Level data for empty ground inside a ring of border, with the given
/// material codes put on some cells.
fn level_with(index: usize, cells: &[(usize, usize, u8)]) -> Level {
    let mut raw_board = vec![0u8; 3 * B_WIDTH * B_HEIGHT];
    for y in 0..B_HEIGHT {
        for x in 0..B_WIDTH {
            if x == 0 || y == 0 || x == B_WIDTH - 1 || y == B_HEIGHT - 1 {
                raw_board[3 * (y * B_WIDTH + x)] = 4;
            }
        }
    }
    for (x, y, code) in cells {
        raw_board[3 * (y * B_WIDTH + x)] = *code;
    }
    Level { name: String::from("Test"), raw_board, index, kind: LevelKind::Volcano }
}

fn game(levels: &Vec<Level>) -> (GameState, CurrentLevel) {
    let banner = vec![0u8; 3 * SB_WIDTH * SB_HEIGHT];
    reset(levels, &banner)
}

/// A level state that leaves the board alone.
fn quiet() -> CurrentLevel {
    CurrentLevel::Lakes(snaek::levels::LakesState {
        weather: snaek::levels::Weather {
            duration: usize::MAX,
            kind: snaek::levels::WeatherType::Clear,
        },
    })
}

#[test]
fn reset_sets_up_the_first_level() {
    let levels = vec![level_with(0, &[(9, 9, 2)])];
    let (s, _) = game(&levels);
    assert_eq!(s.snake.head_pos(), at(5, 5));
    assert_eq!(s.snake.direction(), Dir::Right);
    assert_eq!(s.snake.len(), 5);
    assert_eq!(s.coins, 300);
    assert_eq!(s.invinc_time, 0);
    assert_eq!(s.frame_num, 0);
    assert!(!s.failed);
    assert_eq!(s.board.cell_at(at(9, 9)).floor, CellFloor::Lava { depth: 1 });
    assert_eq!(s.board.cell_at(at(0, 9)).obj, CellObject::Border);
    assert_eq!(s.shop.selected, 0);
    assert_eq!(s.shop.price_multiplier, 10);
    for item in s.shop.powerups {
        assert_eq!(item.price, 10);
    }
}

#[test]
fn water_spreads_and_none_is_lost() {
    let levels = vec![level_with(0, &[])];
    let (mut s, _) = game(&levels);
    s.board.cell_at_mut(at(100, 80)).floor = CellFloor::Water { depth: 200 };
    let mut pool = Pool::new(4);
    for _ in 0..40 {
        let next = tick_board(&s, &mut pool);
        s.board = next;
        s.frame_num += 1;
        let cells = s.board.cells();
        let depth: usize = cells.iter().map(|c| c.floor.height() as usize).sum();
        assert_eq!(depth, 200);
        assert!(cells.iter().all(|c| c.elev == 0));
    }
    let cells = s.board.cells();
    let wet = cells.iter().filter(|c| matches!(c.floor, CellFloor::Water { .. })).count();
    assert!(wet > 1);
    let deepest = cells.iter().map(|c| c.floor.height()).max().unwrap();
    assert!(deepest < 200);
    // The border ring is as it was read.
    for x in 0..B_WIDTH {
        assert_eq!(s.board.cell_at(at(x, 0)).obj, CellObject::Border);
        assert_eq!(s.board.cell_at(at(x, 0)).floor, CellFloor::Empty);
    }
}

#[test]
fn snake_advances_five_cells_in_five_ticks() {
    let levels = vec![level_with(0, &[])];
    let (mut s, _) = game(&levels);
    let mut l = quiet();
    let mut pool = Pool::new(4);
    for tick in 1..=5 {
        advance_board(&mut s, &mut l, &mut pool);
        assert!(!s.failed);
        assert_eq!(s.snake.head_pos(), at(5 + tick, 5));
        assert_eq!(s.frame_num, tick);
    }
    assert_eq!(s.board.cell_at(at(10, 5)).obj, CellObject::Snake(SnakeColor::Head, 5));
    assert_eq!(s.board.cell_at(at(9, 5)).obj, CellObject::Snake(SnakeColor::DarkRed, 4));
    assert_eq!(s.board.cell_at(at(8, 5)).obj, CellObject::Snake(SnakeColor::LightRed, 3));
    assert_eq!(s.board.cell_at(at(6, 5)).obj, CellObject::Snake(SnakeColor::LightRed, 1));
    assert_eq!(s.snake.len(), 5);
}

#[test]
fn lava_ends_the_run_until_the_next_level() {
    let levels = vec![level_with(0, &[(6, 5, 2)]), level_with(1, &[])];
    let (mut s, mut l) = game(&levels);
    let mut pool = Pool::new(4);
    advance_board(&mut s, &mut l, &mut pool);
    assert!(s.failed);
    assert_eq!(s.snake.head_pos(), at(6, 5));
    for action in [UserAction::Up, UserAction::Down, UserAction::Left] {
        handle_action(&mut s, &mut l, &levels, action);
        advance_board(&mut s, &mut l, &mut pool);
        assert!(s.failed);
        assert_eq!(s.snake.head_pos(), at(6, 5));
        assert_eq!(s.snake.direction(), Dir::Right);
        assert_eq!(s.frame_num, 1);
    }
    handle_action(&mut s, &mut l, &levels, UserAction::Restart);
    assert!(!s.failed);
    assert_eq!(s.level.index, 1);
    assert_eq!(s.snake.head_pos(), at(5, 5));
    advance_board(&mut s, &mut l, &mut pool);
    assert!(!s.failed);
    assert_eq!(s.snake.head_pos(), at(6, 5));
    // After the last level a restart begins that level again.
    handle_action(&mut s, &mut l, &levels, UserAction::Restart);
    assert_eq!(s.level.index, 1);
    assert_eq!(s.snake.head_pos(), at(5, 5));
    assert!(!s.failed);
}

#[test]
fn a_failed_run_on_the_only_level_can_be_restarted() {
    let levels = vec![level_with(0, &[(6, 5, 2)])];
    let (mut s, mut l) = game(&levels);
    let mut pool = Pool::new(4);
    advance_board(&mut s, &mut l, &mut pool);
    assert!(s.failed);
    s.board.cell_at_mut(at(50, 50)).floor = CellFloor::Water { depth: 3 };
    handle_action(&mut s, &mut l, &levels, UserAction::Restart);
    assert!(!s.failed);
    assert_eq!(s.level.index, 0);
    assert_eq!(s.snake.head_pos(), at(5, 5));
    assert_eq!(s.snake.direction(), Dir::Right);
    assert_eq!(s.snake.len(), 5);
    assert_eq!(s.frame_num, 1);
    // The board is as the level has it.
    assert_eq!(s.board.cell_at(at(50, 50)).floor, CellFloor::Empty);
    assert_eq!(s.board.cell_at(at(6, 5)).floor, CellFloor::Lava { depth: 1 });
    assert_eq!(s.board.cell_at(at(6, 5)).obj, CellObject::Nothing);
}

#[test]
fn actions_are_carried_out_in_their_order() {
    let levels = vec![level_with(0, &[])];
    let (mut s, mut l) = game(&levels);
    let actions = vec![UserAction::Down, UserAction::Left, UserAction::ShopItem(1), UserAction::Debug];
    assert!(!handle_actions(&mut s, &mut l, &levels, &actions));
    assert_eq!(s.snake.direction(), Dir::Left);
    assert_eq!(s.shop.selected, 1);
    assert!(s.debug_screen);
    // Up would reverse a snake that has just turned down, and is passed over.
    let actions = vec![UserAction::Down, UserAction::Up, UserAction::Quit, UserAction::Right];
    assert!(handle_actions(&mut s, &mut l, &levels, &actions));
    assert_eq!(s.snake.direction(), Dir::Right);
    assert!(!handle_actions(&mut s, &mut l, &levels, &Vec::new()));
    assert_eq!(s.snake.direction(), Dir::Right);
    assert!(handle_actions(&mut s, &mut l, &levels, &vec![UserAction::Quit]));
}

#[test]
fn the_trail_is_gone_after_as_many_ticks_as_the_snake_is_long() {
    let levels = vec![level_with(0, &[])];
    let (mut s, _) = game(&levels);
    let mut l = quiet();
    let mut pool = Pool::new(4);
    // The head is marked on (6, 5) by the first tick, with a life of 5.
    advance_board(&mut s, &mut l, &mut pool);
    assert_eq!(s.board.cell_at(at(6, 5)).obj, CellObject::Snake(SnakeColor::Head, 5));
    for _ in 0..4 {
        advance_board(&mut s, &mut l, &mut pool);
        assert!(matches!(s.board.cell_at(at(6, 5)).obj, CellObject::Snake(_, _)));
    }
    advance_board(&mut s, &mut l, &mut pool);
    assert_eq!(s.board.cell_at(at(6, 5)).obj, CellObject::Nothing);
}

#[test]
fn invincibility_passes_lava_but_not_the_border() {
    let levels = vec![level_with(0, &[(6, 5, 2), (7, 5, 3), (8, 5, 4)])];
    let (mut s, _) = game(&levels);
    let mut l = quiet();
    s.invinc_time = 10;
    let mut pool = Pool::new(4);
    advance_board(&mut s, &mut l, &mut pool);
    assert!(!s.failed);
    assert_eq!(s.invinc_time, 9);
    advance_board(&mut s, &mut l, &mut pool);
    assert!(!s.failed);
    advance_board(&mut s, &mut l, &mut pool);
    assert!(s.failed);
    assert_eq!(s.snake.head_pos(), at(8, 5));
    assert_eq!(s.board.cell_at(at(8, 5)).obj, CellObject::Border);
}

#[test]
fn food_makes_the_snake_longer() {
    let levels = vec![level_with(0, &[])];
    let (mut s, _) = game(&levels);
    let mut l = quiet();
    s.board.cell_at_mut(at(6, 5)).obj = CellObject::Food(50);
    let mut pool = Pool::new(4);
    advance_board(&mut s, &mut l, &mut pool);
    assert_eq!(s.snake.len(), 6);
    assert_eq!(s.board.cell_at(at(6, 5)).obj, CellObject::Snake(SnakeColor::Head, 6));
}

#[test]
fn steering_turns_the_snake_but_not_around() {
    let levels = vec![level_with(0, &[])];
    let (mut s, mut l) = game(&levels);
    handle_action(&mut s, &mut l, &levels, UserAction::Left);
    assert_eq!(s.snake.direction(), Dir::Right);
    handle_action(&mut s, &mut l, &levels, UserAction::Down);
    assert_eq!(s.snake.direction(), Dir::Down);
    handle_action(&mut s, &mut l, &levels, UserAction::Debug);
    assert!(s.debug_screen);
    handle_action(&mut s, &mut l, &levels, UserAction::Quit);
    assert_eq!(s.snake.direction(), Dir::Down);
    handle_action(&mut s, &mut l, &levels, UserAction::ShopItem(2));
    assert_eq!(s.shop.selected, 2);
    handle_action(&mut s, &mut l, &levels, UserAction::ShopItem(3));
    assert_eq!(s.shop.selected, 2);
}

#[test]
fn buying_costs_the_price_times_the_multiplier() {
    let levels = vec![level_with(0, &[])];
    let (mut s, mut l) = game(&levels);
    s.shop.powerups[0].kind = PowerupType::Invincibility;
    buy(&mut s, &mut l);
    assert_eq!(s.coins, 200);
    assert_eq!(s.invinc_time, 100);
    // The volcano stocks water first.
    for item in s.shop.powerups {
        assert_eq!(item.kind, PowerupType::Water);
        assert_eq!(item.price, 10);
    }
    buy(&mut s, &mut l);
    assert_eq!(s.coins, 100);
    let wet = s.board.cells().iter().filter(|c| matches!(c.floor, CellFloor::Water { .. })).count();
    assert!(wet >= 1);
    for item in s.shop.powerups {
        assert_eq!(item.kind, PowerupType::Seed);
    }
    s.coins = 99;
    let before = s.board.cells();
    buy(&mut s, &mut l);
    assert_eq!(s.coins, 99);
    assert_eq!(s.board.cells(), before);
}

#[test]
fn the_rows_are_shared_out_evenly() {
    assert_eq!(partition(1, 159, 4), vec![(1, 40), (40, 79), (79, 119), (119, 159)]);
    assert_eq!(partition(0, 2, 4), vec![(0, 0), (0, 0), (0, 1), (1, 2)]);
    assert_eq!(partition(3, 3, 2), vec![(3, 3), (3, 3)]);
}

#[test]
fn the_loop_sleeps_for_the_rest_of_the_budget() {
    assert_eq!(sleep_micros(0), 100_000);
    assert_eq!(sleep_micros(40_000), 60_000);
    assert_eq!(sleep_micros(100_000), 0);
    assert_eq!(sleep_micros(100_001), 1000);
}
