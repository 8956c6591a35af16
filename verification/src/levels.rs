//! The levels: what a level is, and what happens on each of them from tick
//! to tick beside the rules that hold on every board.

use vstd::prelude::*;
use crate::art::{PlusLava, PlusWater};
use crate::shapes::{pt_off_border, put_off_border};
use crate::board::{borders_kept, Board};
use crate::chance::random_range;
use crate::state::{GameState, LevelKind, ShopItem, ShopState};
use crate::types::{CellState, Coord, PowerupType, B_HEIGHT, B_WIDTH, NUM_SHOP_ITEMS};

verus! {

/// The shortest spell of weather, in ticks.
pub const WEATHER_DURATION_MIN: usize = 50;

/// No spell of weather lasts this long, in ticks.
pub const WEATHER_DURATION_MAX: usize = 250;

/// Where the volcano throws up its lava.
pub const VOLCANO_X: usize = 95;

pub const VOLCANO_Y: usize = 75;

/// Whether `after` differs from `before` in nothing but the board, and on
/// the board in no border cell.
pub open spec fn hook_kept(before: GameState, after: GameState) -> bool {
    &&& after.level == before.level
    &&& after.scoreboard == before.scoreboard
    &&& after.shop == before.shop
    &&& after.snake == before.snake
    &&& after.coins == before.coins
    &&& after.invinc_time == before.invinc_time
    &&& after.failed == before.failed
    &&& after.frame_num == before.frame_num
    &&& after.debug_screen == before.debug_screen
    &&& after.debug_info == before.debug_info
    &&& after.salt == before.salt
    &&& borders_kept(before.board@, after.board@)
}

/// Whether `after` differs from `before` in nothing but the wares of the
/// shop.
pub open spec fn wares_changed(before: GameState, after: GameState) -> bool {
    &&& after.level == before.level
    &&& after.board == before.board
    &&& after.scoreboard == before.scoreboard
    &&& after.shop.selected == before.shop.selected
    &&& after.shop.price_multiplier == before.shop.price_multiplier
    &&& after.snake == before.snake
    &&& after.coins == before.coins
    &&& after.invinc_time == before.invinc_time
    &&& after.failed == before.failed
    &&& after.frame_num == before.frame_num
    &&& after.debug_screen == before.debug_screen
    &&& after.debug_info == before.debug_info
    &&& after.salt == before.salt
}

/// What a level does beside the rules of the board. Each level says in its
/// three predicates what its three steps do; the steps are held to them, and
/// to what every level must keep.
pub trait LevelState: Sized {
    /// Whether one tick of the level can lead from `before` and the game `s`
    /// to `after` and the game `t`.
    spec fn updates(before: Self, after: Self, s: GameState, t: GameState) -> bool;

    /// Whether filling the shop anew can lead from `before` and the game `s`
    /// to `after` and the game `t`.
    spec fn restocks(before: Self, after: Self, s: GameState, t: GameState) -> bool;

    /// Whether opening the first shop can lead from `before` to `after` and
    /// the shop `shop`.
    spec fn stocks(before: Self, after: Self, shop: ShopState) -> bool;

    /// Runs once in every tick, after the board has been ticked. It changes
    /// nothing but the board, and on the board no border cell.
    fn update(&mut self, s: &mut GameState)
        requires
            old(s).wf(),
        ensures
            final(s).wf(),
            hook_kept(*old(s), *final(s)),
            Self::updates(*old(self), *final(self), *old(s), *final(s)),
    ;

    /// Puts new wares into the shop after a purchase. It changes nothing but
    /// the wares.
    fn reset_shop(&mut self, s: &mut GameState)
        requires
            old(s).wf(),
        ensures
            final(s).wf(),
            wares_changed(*old(s), *final(s)),
            Self::restocks(*old(self), *final(self), *old(s), *final(s)),
    ;

    /// The shop with which the level begins.
    fn new_shop(&mut self) -> (shop: ShopState)
        ensures
            shop.wf(),
            Self::stocks(*old(self), *final(self), shop),
    ;
}

/// Whether `shop` is a shop with which the levels begin: every ware costs
/// 10, prices are multiplied by 10, and the first ware is selected.
pub open spec fn first_shop(shop: ShopState) -> bool {
    &&& shop.selected == 0
    &&& shop.price_multiplier == 10
    &&& forall|i: int| 0 <= i < NUM_SHOP_ITEMS ==> (#[trigger] shop.powerups@[i]).price == 10
}

/// A shop with wares of the kinds `kinds` at one price, the first of them
/// selected.
pub fn shop_of(kinds: [PowerupType; NUM_SHOP_ITEMS], price_multiplier: usize, price: usize) -> (shop:
    ShopState)
    ensures
        shop.selected == 0,
        shop.price_multiplier == price_multiplier,
        forall|i: int|
            0 <= i < NUM_SHOP_ITEMS ==> #[trigger] shop.powerups@[i] == (ShopItem {
                kind: kinds@[i],
                price,
            }),
{
    ShopState {
        powerups: [
            ShopItem { kind: kinds[0], price },
            ShopItem { kind: kinds[1], price },
            ShopItem { kind: kinds[2], price },
        ],
        selected: 0,
        price_multiplier,
    }
}

/// Replaces the wares of a shop by wares of the kinds `kinds` at one price.
pub fn set_wares(shop: &mut ShopState, kinds: [PowerupType; NUM_SHOP_ITEMS], price: usize)
    ensures
        final(shop).selected == old(shop).selected,
        final(shop).price_multiplier == old(shop).price_multiplier,
        forall|i: int|
            0 <= i < NUM_SHOP_ITEMS ==> #[trigger] final(shop).powerups@[i] == (ShopItem {
                kind: kinds@[i],
                price,
            }),
{
    shop.powerups = [
        ShopItem { kind: kinds[0], price },
        ShopItem { kind: kinds[1], price },
        ShopItem { kind: kinds[2], price },
    ];
}

/// Three powerups drawn at random.
pub fn random_kinds() -> [PowerupType; NUM_SHOP_ITEMS] {
    [
        PowerupType::from_draw(random_range(0, 5)),
        PowerupType::from_draw(random_range(0, 5)),
        PowerupType::from_draw(random_range(0, 5)),
    ]
}

/// A shop with wares drawn at random, all at one price.
pub fn new_shop_rand(price_multiplier: usize, price: usize) -> (shop: ShopState)
    ensures
        shop.selected == 0,
        shop.price_multiplier == price_multiplier,
        forall|i: int| 0 <= i < NUM_SHOP_ITEMS ==> (#[trigger] shop.powerups@[i]).price == price,
{
    shop_of(random_kinds(), price_multiplier, price)
}

/// Replaces the wares of a shop by wares drawn at random, all at one price.
pub fn reset_shop_rand(shop: &mut ShopState, price: usize)
    ensures
        final(shop).selected == old(shop).selected,
        final(shop).price_multiplier == old(shop).price_multiplier,
        forall|i: int| 0 <= i < NUM_SHOP_ITEMS ==> (#[trigger] final(shop).powerups@[i]).price == price,
{
    set_wares(shop, random_kinds(), price);
}

#[derive(Clone, Copy, PartialEq, Eq, Structural, Debug)]
pub enum WeatherType {
    Clear,
    LavaRain,
    WaterRain,
}

impl WeatherType {
    /// The weather that a draw of `n` stands for.
    pub open spec fn of_draw(n: usize) -> WeatherType {
        if n == 0 {
            WeatherType::Clear
        } else if n == 1 {
            WeatherType::LavaRain
        } else {
            WeatherType::WaterRain
        }
    }

    pub fn from_draw(n: usize) -> (kind: WeatherType)
        ensures
            kind == Self::of_draw(n),
    {
        match n {
            0 => WeatherType::Clear,
            1 => WeatherType::LavaRain,
            _ => WeatherType::WaterRain,
        }
    }
}

#[derive(Clone, Copy, PartialEq, Eq, Structural, Debug)]
pub struct Weather {
    /// The ticks for which this weather goes on.
    pub duration: usize,
    pub kind: WeatherType,
}

/// The grid after one drop of the weather `kind` has fallen on `coord`. No
/// drop falls on a border.
pub open spec fn rained(grid: Seq<Seq<CellState>>, kind: WeatherType, coord: Coord) -> Seq<
    Seq<CellState>,
> {
    match kind {
        WeatherType::Clear => grid,
        WeatherType::LavaRain => put_off_border(grid, coord.x as int, coord.y as int, PlusLava(1)),
        WeatherType::WaterRain => put_off_border(grid, coord.x as int, coord.y as int, PlusWater(1)),
    }
}

/// Lets one drop of the weather `kind` fall on `coord`.
pub fn rain(board: &mut Board<B_WIDTH, B_HEIGHT>, kind: WeatherType, coord: Coord)
    ensures
        final(board)@ == rained(old(board)@, kind, coord),
        borders_kept(old(board)@, final(board)@),
{
    match kind {
        WeatherType::Clear => {},
        WeatherType::LavaRain => {
            pt_off_border(board, coord, PlusLava(1));
        },
        WeatherType::WaterRain => {
            pt_off_border(board, coord, PlusWater(1));
        },
    }
}

/// A place off the outermost rows and columns of the board, drawn at
/// random.
pub fn random_inner_coord() -> (coord: Coord)
    ensures
        Board::<B_WIDTH, B_HEIGHT>::interior(coord),
{
    Coord { x: random_range(1, B_WIDTH - 1), y: random_range(1, B_HEIGHT - 1) }
}

/// The weather after one tick of `weather`: the same with one tick less to
/// go, or `next` once it is over.
pub open spec fn weather_after(weather: Weather, next: Weather) -> Weather {
    if weather.duration > 0 {
        Weather { duration: (weather.duration - 1) as usize, kind: weather.kind }
    } else {
        next
    }
}

/// The level of the lakes, where it rains water or lava by spells.
#[derive(Clone, Copy, Debug)]
pub struct LakesState {
    pub weather: Weather,
}

impl LakesState {
    /// The level begins with clear weather.
    pub fn new() -> (state: LakesState)
        ensures
            state.weather.kind == WeatherType::Clear,
            WEATHER_DURATION_MIN <= state.weather.duration < WEATHER_DURATION_MAX,
    {
        LakesState {
            weather: Weather { duration: Self::rand_weather_duration(), kind: WeatherType::Clear },
        }
    }

    /// Some weather drawn at random.
    pub fn next_weather() -> (weather: Weather)
        ensures
            WEATHER_DURATION_MIN <= weather.duration < WEATHER_DURATION_MAX,
    {
        let kind = WeatherType::from_draw(random_range(0, 3));
        Weather { duration: Self::rand_weather_duration(), kind }
    }

    pub fn rand_weather_duration() -> (duration: usize)
        ensures
            WEATHER_DURATION_MIN <= duration < WEATHER_DURATION_MAX,
    {
        random_range(WEATHER_DURATION_MIN, WEATHER_DURATION_MAX)
    }

    /// One tick of the weather, for a place and a next weather that have been
    /// drawn: a drop falls on `coord`, and the weather moves on.
    pub fn update_with(&mut self, s: &mut GameState, coord: Coord, next: Weather)
        requires
            old(s).wf(),
        ensures
            final(s).wf(),
            hook_kept(*old(s), *final(s)),
            final(s).board@ == rained(old(s).board@, old(self).weather.kind, coord),
            final(self).weather == weather_after(old(self).weather, next),
    {
        rain(&mut s.board, self.weather.kind, coord);
        if self.weather.duration > 0 {
            self.weather.duration -= 1;
        } else {
            self.weather = next;
        }
    }
}

/// Whether `after` is what one tick of the weather `weather` makes of
/// `before`: a drop has fallen on some place off the outermost rows and
/// columns.
pub open spec fn is_rain_on(
    after: Seq<Seq<CellState>>,
    before: Seq<Seq<CellState>>,
    weather: WeatherType,
) -> bool {
    exists|coord: Coord|
        Board::<B_WIDTH, B_HEIGHT>::interior(coord) && after == #[trigger] rained(
            before,
            weather,
            coord,
        )
}

/// Whether `after` can follow `weather`: the same with one tick less to go,
/// or any weather of a fresh duration once it is over.
pub open spec fn weather_moves_on(weather: Weather, after: Weather) -> bool {
    if weather.duration > 0 {
        after == (Weather { duration: (weather.duration - 1) as usize, kind: weather.kind })
    } else {
        WEATHER_DURATION_MIN <= after.duration < WEATHER_DURATION_MAX
    }
}

impl LevelState for LakesState {
    /// A drop of the weather falls somewhere, and the weather moves on.
    open spec fn updates(before: Self, after: Self, s: GameState, t: GameState) -> bool {
        &&& is_rain_on(t.board@, s.board@, before.weather.kind)
        &&& weather_moves_on(before.weather, after.weather)
    }

    /// Every new ware costs 10.
    open spec fn restocks(before: Self, after: Self, s: GameState, t: GameState) -> bool {
        &&& after == before
        &&& forall|i: int| 0 <= i < NUM_SHOP_ITEMS ==> (#[trigger] t.shop.powerups@[i]).price == 10
    }

    open spec fn stocks(before: Self, after: Self, shop: ShopState) -> bool {
        after == before && first_shop(shop)
    }

    fn update(&mut self, s: &mut GameState) {
        let coord = random_inner_coord();
        let next = if self.weather.duration > 0 {
            self.weather
        } else {
            Self::next_weather()
        };
        self.update_with(s, coord, next);
    }

    fn reset_shop(&mut self, s: &mut GameState) {
        reset_shop_rand(&mut s.shop, 10);
    }

    fn new_shop(&mut self) -> (shop: ShopState) {
        new_shop_rand(10, 10)
    }
}

/// The level of the volcano, which throws up lava on every tick.
#[derive(Clone, Copy, Debug)]
pub struct VolcanoState {
    /// How often the shop has been filled anew.
    pub shop_reset_count: usize,
}

impl VolcanoState {
    pub fn new() -> (state: VolcanoState)
        ensures
            state.shop_reset_count == 0,
    {
        VolcanoState { shop_reset_count: 0 }
    }

    /// Fills the shop anew for kinds that have been drawn: with water the
    /// first time, with seeds the second time, and with `kinds` from then on.
    pub fn reset_shop_with(&mut self, s: &mut GameState, kinds: [PowerupType; NUM_SHOP_ITEMS])
        requires
            old(s).wf(),
        ensures
            final(s).wf(),
            wares_changed(*old(s), *final(s)),
            forall|i: int|
                0 <= i < NUM_SHOP_ITEMS ==> #[trigger] final(s).shop.powerups@[i] == (ShopItem {
                    kind: if old(self).shop_reset_count == 0 {
                        PowerupType::Water
                    } else if old(self).shop_reset_count == 1 {
                        PowerupType::Seed
                    } else {
                        kinds@[i]
                    },
                    price: 10,
                }),
            final(self).shop_reset_count == if old(self).shop_reset_count == usize::MAX {
                usize::MAX
            } else {
                (old(self).shop_reset_count + 1) as usize
            },
    {
        match self.shop_reset_count {
            0 => set_wares(
                &mut s.shop,
                [PowerupType::Water, PowerupType::Water, PowerupType::Water],
                10,
            ),
            1 => set_wares(
                &mut s.shop,
                [PowerupType::Seed, PowerupType::Seed, PowerupType::Seed],
                10,
            ),
            _ => set_wares(&mut s.shop, kinds, 10),
        }
        if self.shop_reset_count < usize::MAX {
            self.shop_reset_count += 1;
        }
    }
}

impl LevelState for VolcanoState {
    /// One unit of lava comes up at the volcano.
    open spec fn updates(before: Self, after: Self, s: GameState, t: GameState) -> bool {
        &&& after == before
        &&& t.board@ == put_off_border(s.board@, VOLCANO_X as int, VOLCANO_Y as int, PlusLava(1))
    }

    /// Every new ware costs 10. The first time all of them are water, the
    /// second time seeds.
    open spec fn restocks(before: Self, after: Self, s: GameState, t: GameState) -> bool {
        &&& after.shop_reset_count == if before.shop_reset_count == usize::MAX {
            usize::MAX
        } else {
            (before.shop_reset_count + 1) as usize
        }
        &&& forall|i: int|
            0 <= i < NUM_SHOP_ITEMS ==> {
                &&& (#[trigger] t.shop.powerups@[i]).price == 10
                &&& before.shop_reset_count == 0 ==> t.shop.powerups@[i].kind == PowerupType::Water
                &&& before.shop_reset_count == 1 ==> t.shop.powerups@[i].kind == PowerupType::Seed
            }
    }

    open spec fn stocks(before: Self, after: Self, shop: ShopState) -> bool {
        after == before && first_shop(shop)
    }

    fn update(&mut self, s: &mut GameState) {
        pt_off_border(&mut s.board, Coord { x: VOLCANO_X, y: VOLCANO_Y }, PlusLava(1));
    }

    fn reset_shop(&mut self, s: &mut GameState) {
        let kinds = random_kinds();
        self.reset_shop_with(s, kinds);
    }

    fn new_shop(&mut self) -> (shop: ShopState) {
        new_shop_rand(10, 10)
    }
}

/// The state of whichever level is being played.
#[derive(Clone, Copy, Debug)]
pub enum CurrentLevel {
    Lakes(LakesState),
    Volcano(VolcanoState),
}

impl LevelState for CurrentLevel {
    open spec fn updates(before: Self, after: Self, s: GameState, t: GameState) -> bool {
        match before {
            CurrentLevel::Lakes(l) => after is Lakes && LakesState::updates(l, after->Lakes_0, s, t),
            CurrentLevel::Volcano(l) => after is Volcano && VolcanoState::updates(
                l,
                after->Volcano_0,
                s,
                t,
            ),
        }
    }

    open spec fn restocks(before: Self, after: Self, s: GameState, t: GameState) -> bool {
        match before {
            CurrentLevel::Lakes(l) => after is Lakes && LakesState::restocks(l, after->Lakes_0, s, t),
            CurrentLevel::Volcano(l) => after is Volcano && VolcanoState::restocks(
                l,
                after->Volcano_0,
                s,
                t,
            ),
        }
    }

    open spec fn stocks(before: Self, after: Self, shop: ShopState) -> bool {
        after == before && first_shop(shop)
    }

    fn update(&mut self, s: &mut GameState) {
        match self {
            CurrentLevel::Lakes(l) => l.update(s),
            CurrentLevel::Volcano(l) => l.update(s),
        }
    }

    fn reset_shop(&mut self, s: &mut GameState) {
        match self {
            CurrentLevel::Lakes(l) => l.reset_shop(s),
            CurrentLevel::Volcano(l) => l.reset_shop(s),
        }
    }

    fn new_shop(&mut self) -> (shop: ShopState) {
        match self {
            CurrentLevel::Lakes(l) => l.new_shop(),
            CurrentLevel::Volcano(l) => l.new_shop(),
        }
    }
}

/// The levels change floors only: after a level's turn every cell of the
/// board holds the object it held before.
pub proof fn lemma_levels_leave_objects(
    l: CurrentLevel,
    m: CurrentLevel,
    s: GameState,
    t: GameState,
    x: int,
    y: int,
)
    requires
        CurrentLevel::updates(l, m, s, t),
        0 <= x < B_WIDTH,
        0 <= y < B_HEIGHT,
    ensures
        t.board@[y][x].obj == s.board@[y][x].obj,
{
    match l {
        CurrentLevel::Lakes(lakes) => {
            let coord = choose|coord: Coord|
                Board::<B_WIDTH, B_HEIGHT>::interior(coord) && t.board@ == #[trigger] rained(
                    s.board@,
                    lakes.weather.kind,
                    coord,
                );
            assert(t.board@ == rained(s.board@, lakes.weather.kind, coord));
        },
        CurrentLevel::Volcano(_) => {},
    }
}

/// Whether `l` is a state with which a level of the given kind begins: the
/// lakes under clear weather of some duration, the volcano with a shop that
/// has never been filled anew.
pub open spec fn begins(l: CurrentLevel, kind: LevelKind) -> bool {
    match kind {
        LevelKind::Lakes => {
            &&& l is Lakes
            &&& l->Lakes_0.weather.kind == WeatherType::Clear
            &&& WEATHER_DURATION_MIN <= l->Lakes_0.weather.duration < WEATHER_DURATION_MAX
        },
        LevelKind::Volcano => l == CurrentLevel::Volcano(VolcanoState { shop_reset_count: 0 }),
    }
}

/// The state with which a level of the given kind begins.
pub fn new_level_state(kind: LevelKind) -> (l: CurrentLevel)
    ensures
        begins(l, kind),
{
    match kind {
        LevelKind::Lakes => CurrentLevel::Lakes(LakesState::new()),
        LevelKind::Volcano => CurrentLevel::Volcano(VolcanoState::new()),
    }
}

} // verus!
