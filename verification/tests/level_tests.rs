use scoped_threadpool::Pool;
use snaek::board::Board;
use snaek::game::{advance_board, reset};
use snaek::levels::{
    new_level_state, new_shop_rand, rain, random_inner_coord, reset_shop_rand, set_wares, shop_of,
    CurrentLevel, LakesState, LevelState, VolcanoState, Weather, WeatherType,
};
use snaek::logic::tick;
use snaek::scoreboard::{ScoreboardArt, ShopItemFill};
use snaek::state::{Level, LevelKind, ShopItem};
use snaek::types::{
    CellFloor, CellObject, CellState, Coord, IndicatorType, PowerupType, B_HEIGHT, B_WIDTH,
    SB_HEIGHT, SB_WIDTH,
};

fn at(x: usize, y: usize) -> Coord {
    Coord { x, y }
}

fn level(kind: LevelKind, cells: &[(usize, usize, u8)]) -> Level {
    let mut raw_board = vec![0u8; 3 * B_WIDTH * B_HEIGHT];
    for (x, y, code) in cells {
        raw_board[3 * (y * B_WIDTH + x)] = *code;
    }
    Level { name: String::from("Test"), raw_board, index: 0, kind }
}

#[test]
fn random_places_lie_where_they_should() {
    for _ in 0..200 {
        let coord = random_inner_coord();
        assert!(1 <= coord.x && coord.x < B_WIDTH - 1);
        assert!(1 <= coord.y && coord.y < B_HEIGHT - 1);
        assert!(Coord::rand().in_bounds());
        let ranged = Coord::rand_range(3..5, 10..11);
        assert!(3 <= ranged.x && ranged.x < 5);
        assert_eq!(ranged.y, 10);
        let duration = LakesState::rand_weather_duration();
        assert!(50 <= duration && duration < 250);
    }
}

#[test]
fn random_numbers_vary() {
    let first = LakesState::rand_weather_duration();
    assert!((0..60).any(|_| LakesState::rand_weather_duration() != first));
    let first = Coord::rand_range(0..1000, 5..1000);
    assert!((0..60).any(|_| Coord::rand_range(0..1000, 5..1000) != first));
}

#[test]
fn rain_falls_but_not_on_the_border() {
    let mut board: Board<B_WIDTH, B_HEIGHT> = Board::new_filled(());
    rain(&mut board, WeatherType::WaterRain, at(3, 4));
    assert_eq!(board.cell_at(at(3, 4)).floor, CellFloor::Water { depth: 1 });
    rain(&mut board, WeatherType::LavaRain, at(3, 5));
    assert_eq!(board.cell_at(at(3, 5)).floor, CellFloor::Lava { depth: 1 });
    rain(&mut board, WeatherType::Clear, at(3, 6));
    assert_eq!(board.cell_at(at(3, 6)).floor, CellFloor::Empty);
    board.cell_at_mut(at(3, 7)).obj = CellObject::Border;
    rain(&mut board, WeatherType::LavaRain, at(3, 7));
    assert_eq!(board.cell_at(at(3, 7)).floor, CellFloor::Empty);
}

#[test]
fn the_weather_runs_down_and_changes() {
    let levels = vec![level(LevelKind::Lakes, &[])];
    let banner = vec![0u8; 3 * SB_WIDTH * SB_HEIGHT];
    let (mut s, _) = reset(&levels, &banner);
    let mut lakes = LakesState { weather: Weather { duration: 1, kind: WeatherType::WaterRain } };
    let next = Weather { duration: 77, kind: WeatherType::LavaRain };
    lakes.update_with(&mut s, at(9, 9), next);
    assert_eq!(lakes.weather, Weather { duration: 0, kind: WeatherType::WaterRain });
    assert_eq!(s.board.cell_at(at(9, 9)).floor, CellFloor::Water { depth: 1 });
    lakes.update_with(&mut s, at(9, 9), next);
    assert_eq!(lakes.weather, next);
    assert_eq!(s.board.cell_at(at(9, 9)).floor, CellFloor::Water { depth: 2 });
    lakes.update_with(&mut s, at(9, 9), next);
    assert_eq!(lakes.weather, Weather { duration: 76, kind: WeatherType::LavaRain });
    assert_eq!(s.board.cell_at(at(9, 9)).floor, CellFloor::Water { depth: 1 });
    lakes.update(&mut s);
    assert_eq!(lakes.weather, Weather { duration: 75, kind: WeatherType::LavaRain });
    let begun = LakesState::new();
    assert_eq!(begun.weather.kind, WeatherType::Clear);
    assert!(matches!(new_level_state(LevelKind::Lakes), CurrentLevel::Lakes(_)));
    assert!(matches!(
        new_level_state(LevelKind::Volcano),
        CurrentLevel::Volcano(VolcanoState { shop_reset_count: 0 })
    ));
}

#[test]
fn the_volcano_throws_up_lava_and_stocks_its_shop() {
    let levels = vec![level(LevelKind::Volcano, &[])];
    let banner = vec![0u8; 3 * SB_WIDTH * SB_HEIGHT];
    let (mut s, mut l) = reset(&levels, &banner);
    l.update(&mut s);
    assert_eq!(s.board.cell_at(at(95, 75)).floor, CellFloor::Lava { depth: 1 });
    l.update(&mut s);
    assert_eq!(s.board.cell_at(at(95, 75)).floor, CellFloor::Lava { depth: 2 });
    let mut volcano = VolcanoState::new();
    let kinds = [PowerupType::Shovel, PowerupType::Explosive, PowerupType::Invincibility];
    volcano.reset_shop_with(&mut s, kinds);
    assert!(s.shop.powerups.iter().all(|i| i.kind == PowerupType::Water && i.price == 10));
    volcano.reset_shop_with(&mut s, kinds);
    assert!(s.shop.powerups.iter().all(|i| i.kind == PowerupType::Seed && i.price == 10));
    volcano.reset_shop_with(&mut s, kinds);
    assert_eq!(s.shop.powerups[0].kind, PowerupType::Shovel);
    assert_eq!(s.shop.powerups[1].kind, PowerupType::Explosive);
    assert_eq!(s.shop.powerups[2].kind, PowerupType::Invincibility);
    assert_eq!(volcano.shop_reset_count, 3);
}

#[test]
fn shops_are_stocked_at_one_price() {
    let kinds = [PowerupType::Water, PowerupType::Seed, PowerupType::Shovel];
    let mut shop = shop_of(kinds, 4, 25);
    assert_eq!(shop.selected, 0);
    assert_eq!(shop.price_multiplier, 4);
    assert_eq!(shop.powerups[1].kind, PowerupType::Seed);
    assert_eq!(shop.powerups[2].price, 25);
    shop.selected = 2;
    set_wares(&mut shop, [PowerupType::Explosive; 3], 5);
    assert_eq!(shop.selected, 2);
    assert_eq!(shop.price_multiplier, 4);
    assert!(shop.powerups.iter().all(|i| i.kind == PowerupType::Explosive && i.price == 5));
    reset_shop_rand(&mut shop, 9);
    assert!(shop.powerups.iter().all(|i| i.price == 9));
    let fresh = new_shop_rand(3, 8);
    assert_eq!((fresh.selected, fresh.price_multiplier), (0, 3));
    assert!(fresh.powerups.iter().all(|i| i.price == 8));
    assert_eq!(PowerupType::from_draw(3), PowerupType::Invincibility);
    assert_eq!(PowerupType::from_draw(4), PowerupType::Seed);
}

#[test]
fn the_shop_is_drawn_with_frames_signs_and_prices() {
    let mut board: Board<SB_WIDTH, SB_HEIGHT> = Board::new_filled(CellObject::Wall);
    let mut shop = shop_of([PowerupType::Water, PowerupType::Seed, PowerupType::Shovel], 10, 10);
    shop.selected = 1;
    board.shop(&shop);
    let selected = CellFloor::Indicator(IndicatorType::Powerup(PowerupType::Seed));
    // The upper edge of the frame of each ware.
    for x in 3..=9 {
        assert_eq!(board.cell_at(at(x, 3)).obj, CellObject::Nothing);
        assert_eq!(board.cell_at(at(x, 3)).floor, CellFloor::Empty);
        assert_eq!(board.cell_at(at(x, 18)).obj, CellObject::Nothing);
        assert_eq!(board.cell_at(at(x, 18)).floor, selected);
        assert_eq!(board.cell_at(at(x, 33)).obj, CellObject::Nothing);
    }
    // The corners of a frame are left out.
    assert_eq!(board.cell_at(at(2, 3)).obj, CellObject::Wall);
    assert_eq!(board.cell_at(at(10, 3)).obj, CellObject::Wall);
    // The sign of the seed begins with an empty cell.
    assert_eq!(board.cell_at(at(4, 20)).obj, CellObject::Wall);
    assert_eq!(board.cell_at(at(5, 20)).floor, selected);
    // The price, 100, begins with a one.
    assert_eq!(board.cell_at(at(14, 20)).obj, CellObject::Wall);
    assert_eq!(board.cell_at(at(15, 20)).floor, selected);
    assert_eq!(board.cell_at(at(15, 20)).obj, CellObject::Nothing);
    // A number that is no ware's draws nothing.
    let before = board.cells();
    board.shop_item_display(&shop, 3, ShopItemFill::Remove);
    assert_eq!(board.cells(), before);
    board.shop_remove(&shop);
    assert_eq!(board.cell_at(at(5, 18)).obj, CellObject::Wall);
    assert_eq!(board.cell_at(at(5, 18)).floor, CellFloor::Empty);
    board.coins(7);
    assert_eq!(board.cell_at(at(8, 57)).obj, CellObject::Nothing);
    board.coins_remove(7);
    assert_eq!(board.cell_at(at(8, 57)).obj, CellObject::Wall);
    board.pm(&shop);
    assert_eq!(board.cell_at(at(9, 50)).obj, CellObject::Nothing);
    board.pm_remove(&shop);
    assert_eq!(board.cell_at(at(9, 50)).obj, CellObject::Wall);
    assert_eq!(shop.get_selected().kind, PowerupType::Seed);
    assert_eq!(shop.get_selected_ref().price, 10);
    shop.get_selected_mut().price = 11;
    assert_eq!(shop.powerups[1], ShopItem { kind: PowerupType::Seed, price: 11 });
}

#[test]
fn borders_inside_the_board_outlast_rain_and_ticks() {
    let levels = vec![level(LevelKind::Lakes, &[(95, 75, 4), (50, 50, 4), (51, 50, 1), (49, 50, 5)])];
    let banner = vec![0u8; 3 * SB_WIDTH * SB_HEIGHT];
    let (mut s, _) = reset(&levels, &banner);
    s.board.cell_at_mut(at(50, 50)).floor = CellFloor::Water { depth: 9 };
    let border = s.board.cell_at(at(50, 50));
    let mut l =
        CurrentLevel::Lakes(LakesState { weather: Weather { duration: 1000, kind: WeatherType::LavaRain } });
    let mut pool = Pool::new(4);
    for _ in 0..30 {
        advance_board(&mut s, &mut l, &mut pool);
        assert_eq!(s.board.cell_at(at(50, 50)), border);
        assert_eq!(s.board.cell_at(at(95, 75)).obj, CellObject::Border);
        assert_eq!(s.board.cell_at(at(95, 75)).floor, CellFloor::Empty);
    }
}

#[test]
fn tick_with_its_own_rolls_keeps_the_laws() {
    let levels = vec![level(LevelKind::Volcano, &[])];
    let banner = vec![0u8; 3 * SB_WIDTH * SB_HEIGHT];
    let (s, _) = reset(&levels, &banner);
    let ground = CellState::default();
    let mut around = [ground; 8];
    around[6].floor = CellFloor::Water { depth: 1 };
    let seed = CellState { floor: CellFloor::Seed { height: 3, dist: 9 }, ..ground };
    let border = CellState { obj: CellObject::Border, ..seed };
    for x in 1..40 {
        let mut cell = seed;
        tick(&seed, &around, &mut cell, at(x, 2), &s);
        assert!(
            cell.floor == CellFloor::Seed { height: 3, dist: 1 }
                || cell.floor == CellFloor::Seed { height: 4, dist: 1 }
        );
        let mut cell = border;
        tick(&border, &around, &mut cell, at(x, 2), &s);
        assert_eq!(cell, border);
    }
}
