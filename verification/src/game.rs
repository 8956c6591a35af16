//! One step of the game: what a user's action does to the state, and what a
//! tick does to it. The loop that waits for actions and for the clock runs
//! these steps in turn.

use vstd::prelude::*;
use scoped_threadpool::Pool;
use crate::art::{Fill, PlusSeed, PlusWater};
use crate::shapes::{
    exploded, is_explosion_of, lemma_explosion_keeps_borders, pt_off_border, put_off_border,
    BoardArt,
};
use crate::board::{borders_kept, Board};
use crate::chance::random_u32;
use crate::levels::{
    begins, first_shop, hook_kept, lemma_levels_leave_objects, new_level_state, wares_changed,
    CurrentLevel, LevelState,
};
use crate::schedule::{grid_ticked, lemma_tick_keeps_borders, lemma_tick_keeps_walls, tick_board};
use crate::scoreboard::{shop_drawn, shop_item_drawn, shop_removed, ScoreboardArt, ShopItemFill};
use crate::snake::Snake;
use crate::state::{DebugInfo, GameState, Level, ShopItem, ShopState};
use crate::types::{
    stepped, CellFloor, CellObject, CellState, Coord, Dir, PowerupType, SnakeColor, B_HEIGHT, B_WIDTH,
    LOGIC_MAX_MSPT, NUM_SHOP_ITEMS, SB_HEIGHT, SB_WIDTH,
};

verus! {

/// The ticks of invincibility that its powerup buys.
pub const INVINC_TIME: usize = 100;

/// The length with which the snake begins.
pub const START_LEN: usize = 5;

/// The coins with which the game begins.
pub const START_COINS: usize = 300;

/// What the user can ask for.
#[derive(Clone, Copy, Hash, PartialEq, Eq, Structural, Debug)]
pub enum UserAction {
    Up,
    Left,
    Down,
    Right,
    ShopItem(usize),
    Buy,
    Restart,
    Quit,
    Debug,
}

/// Where the snake starts on every level.
pub open spec fn start_pos() -> Coord {
    Coord { x: 5, y: 5 }
}

impl Level {
    /// A copy of the level.
    pub fn duplicate(&self) -> (level: Level)
        ensures
            level.name == self.name,
            level.raw_board@ == self.raw_board@,
            level.index == self.index,
            level.kind == self.kind,
    {
        Level {
            name: self.name.clone(),
            raw_board: self.raw_board.clone(),
            index: self.index,
            kind: self.kind,
        }
    }
}

/// Whether stepping onto `cell` ends the run: a border always does, a wall
/// and lava do unless the snake is invincible.
pub open spec fn hit_fails(cell: CellState, invinc_time: usize) -> bool {
    cell.obj is Border || ((cell.floor is Lava || cell.obj is Wall) && invinc_time == 0)
}

/// The length of the snake after it has stepped onto `cell`: food makes it
/// longer by one.
pub open spec fn len_after_hit(cell: CellState, len: usize) -> usize {
    if cell.obj is Food && len < usize::MAX {
        (len + 1) as usize
    } else {
        len
    }
}

/// Whether `after` differs from `before` at most in the snake and in the
/// flag that tells a failed run.
pub open spec fn only_snake_and_failed(before: GameState, after: GameState) -> bool {
    &&& after.level == before.level
    &&& after.board == before.board
    &&& after.scoreboard == before.scoreboard
    &&& after.shop == before.shop
    &&& after.coins == before.coins
    &&& after.invinc_time == before.invinc_time
    &&& after.frame_num == before.frame_num
    &&& after.debug_screen == before.debug_screen
    &&& after.debug_info == before.debug_info
    &&& after.salt == before.salt
}

/// What happens when the head of the snake steps onto `cell`.
pub fn handle_hit(cell: CellState, s: &mut GameState)
    ensures
        only_snake_and_failed(*old(s), *final(s)),
        final(s).failed == (old(s).failed || hit_fails(cell, old(s).invinc_time)),
        final(s).snake.len() == len_after_hit(cell, old(s).snake.len()),
        final(s).snake.head_pos() == old(s).snake.head_pos(),
        final(s).snake.direction() == old(s).snake.direction(),
{
    let lava = match cell.floor {
        CellFloor::Lava { .. } => true,
        _ => false,
    };
    match cell.obj {
        CellObject::Border => {
            // Fatal even to an invincible snake.
            s.failed = true;
        },
        CellObject::Wall => {
            if s.invinc_time == 0 {
                s.failed = true;
            }
        },
        _ => {
            if lava && s.invinc_time == 0 {
                s.failed = true;
            }
        },
    }
    match cell.obj {
        CellObject::Food(_) => {
            if s.snake.len() < usize::MAX {
                s.snake.add_food(1);
            }
        },
        _ => {},
    }
}

/// The frame number after `frame_num`; after the greatest number the count
/// begins again at 0.
pub open spec fn next_frame(frame_num: usize) -> usize {
    if frame_num == usize::MAX {
        0
    } else {
        (frame_num + 1) as usize
    }
}

/// What one tick makes of a game that has not failed, on a level that goes
/// from `l` to `m`:
/// - the head moves one cell along its heading, and what it steps onto
///   decides whether the run has failed and whether the snake grows;
/// - the cell of the head is walled and the board is ticked, which leads to
///   the game `ticked`; the level has its turn, which leads to `hooked`; and
///   the head is marked on the cell it stands on;
/// - invincibility runs down by one tick and the frame number goes up.
pub open spec fn advanced<L: LevelState>(before: GameState, l: L, after: GameState, m: L) -> bool {
    let head = before.snake.head_pos().plus_wrapped(before.snake.direction());
    let hit = before.board.cell(head);
    &&& after.snake.head_pos() == head
    &&& after.snake.direction() == before.snake.direction()
    &&& after.snake.len() == len_after_hit(hit, before.snake.len())
    &&& after.failed == hit_fails(hit, before.invinc_time)
    &&& after.invinc_time == if before.invinc_time == 0 {
        0
    } else {
        (before.invinc_time - 1) as usize
    }
    &&& after.frame_num == next_frame(before.frame_num)
    &&& after.level == before.level
    &&& after.scoreboard == before.scoreboard
    &&& after.shop == before.shop
    &&& after.coins == before.coins
    &&& after.debug_screen == before.debug_screen
    &&& after.debug_info == before.debug_info
    &&& after.salt == before.salt
    &&& exists|ticked: GameState, hooked: GameState|
        {
            &&& #[trigger] grid_ticked(
                put_off_border(before.board@, head.x as int, head.y as int, CellObject::Wall),
                ticked.board@,
                before.frame_num,
                before.salt,
            )
            &&& only_snake_and_failed(before, GameState { board: before.board, ..ticked })
            &&& ticked.snake == after.snake
            &&& ticked.failed == after.failed
            &&& #[trigger] hook_kept(ticked, hooked)
            &&& L::updates(l, m, ticked, hooked)
            &&& after.board@ == put_off_border(
                hooked.board@,
                head.x as int,
                head.y as int,
                CellObject::Snake(SnakeColor::Head, after.snake.len()),
            )
        }
}

/// A step onto free ground. Where the cell ahead of the snake holds no
/// object and no lava, a tick moves the head onto it, the run has not failed,
/// the snake is as long as it was, and the head is marked on that cell with
/// the length of the snake as its life. The frame number has gone up by one,
/// unless it was the greatest.
pub proof fn lemma_step_onto_free_ground(
    before: GameState,
    l: CurrentLevel,
    after: GameState,
    m: CurrentLevel,
)
    requires
        advanced(before, l, after, m),
        before.board.cell(before.snake.head_pos().plus_wrapped(before.snake.direction())).obj is Nothing,
        !(before.board.cell(
            before.snake.head_pos().plus_wrapped(before.snake.direction()),
        ).floor is Lava),
    ensures
        after.snake.head_pos() == before.snake.head_pos().plus_wrapped(before.snake.direction()),
        after.snake.direction() == before.snake.direction(),
        !after.failed,
        after.snake.len() == before.snake.len(),
        before.frame_num < usize::MAX ==> after.frame_num == before.frame_num + 1,
        after.board.cell(after.snake.head_pos()).obj == CellObject::Snake(
            SnakeColor::Head,
            after.snake.len(),
        ),
{
    let head = before.snake.head_pos().plus_wrapped(before.snake.direction());
    let (x, y) = (head.x as int, head.y as int);
    let walled = put_off_border(before.board@, x, y, CellObject::Wall);
    let (ticked, hooked) = choose|ticked: GameState, hooked: GameState|
        {
            &&& #[trigger] grid_ticked(walled, ticked.board@, before.frame_num, before.salt)
            &&& only_snake_and_failed(before, GameState { board: before.board, ..ticked })
            &&& ticked.snake == after.snake
            &&& ticked.failed == after.failed
            &&& #[trigger] hook_kept(ticked, hooked)
            &&& CurrentLevel::updates(l, m, ticked, hooked)
            &&& after.board@ == put_off_border(
                hooked.board@,
                x,
                y,
                CellObject::Snake(SnakeColor::Head, after.snake.len()),
            )
        };
    assert(walled[y][x].obj is Wall);
    lemma_tick_keeps_walls(walled, ticked.board@, before.frame_num, before.salt, x, y);
    lemma_levels_leave_objects(l, m, ticked, hooked, x, y);
    assert(hooked.board@[y][x].obj is Wall);
    assert(after.board@[y][x] == CellObject::Snake(SnakeColor::Head, after.snake.len()).filled(
        hooked.board@[y][x],
    ));
    assert(after.board@[y][x] == after.board.cell(head));
}

/// A run of ticks. Where each game of a history is what a tick makes of the
/// one before, the head is where as many steps along the heading lead from
/// where it began, round the board, and the heading is the same.
pub proof fn lemma_run_of_ticks<L: LevelState>(games: Seq<GameState>, levels: Seq<L>, k: nat)
    requires
        levels.len() == games.len(),
        k < games.len(),
        forall|i: int|
            0 <= i < games.len() - 1 ==> advanced(
                #[trigger] games[i],
                levels[i],
                games[i + 1],
                levels[i + 1],
            ),
    ensures
        games[k as int].snake.direction() == games[0].snake.direction(),
        games[k as int].snake.head_pos() == stepped(
            games[0].snake.head_pos(),
            games[0].snake.direction(),
            k,
        ),
    decreases k,
{
    if k > 0 {
        lemma_run_of_ticks(games, levels, (k - 1) as nat);
        assert(advanced(games[k - 1], levels[k - 1], games[k as int], levels[k as int]));
    }
}

/// One tick of the game. A game that has failed stands still until it is
/// started again.
pub fn advance_board<L: LevelState>(s: &mut GameState, l: &mut L, pool: &mut Pool)
    requires
        old(s).wf(),
    ensures
        final(s).wf(),
        old(s).failed ==> *final(s) == *old(s) && *final(l) == *old(l),
        !old(s).failed ==> advanced(*old(s), *old(l), *final(s), *final(l)),
        borders_kept(old(s).board@, final(s).board@),
{
    if s.failed {
        return ;
    }
    // Advance the snake.
    s.snake.advance();

    // Check what we hit.
    let head_pos = s.snake.head_pos();
    let hit = s.board.cell_at(head_pos);
    handle_hit(hit, s);

    // The snake is solid for this generation.
    pt_off_border(&mut s.board, head_pos, CellObject::Wall);
    let ghost walled = s.board@;

    // Update all cells.
    let next = tick_board(s, pool);
    proof {
        lemma_tick_keeps_borders(walled, next@, s.frame_num, s.salt);
    }
    s.board = next;
    let ghost ticked = *s;

    l.update(s);
    let ghost hooked = *s;

    if s.invinc_time != 0 {
        s.invinc_time -= 1;
    }
    if s.frame_num < usize::MAX {
        s.frame_num += 1;
    } else {
        s.frame_num = 0;
    }
    pt_off_border(&mut s.board, head_pos, CellObject::Snake(SnakeColor::Head, s.snake.len()));
    proof {
        assert(grid_ticked(walled, ticked.board@, old(s).frame_num, old(s).salt));
        assert(hook_kept(ticked, hooked));
    }
}

/// What selecting ware `n` makes of the game: the ware that was selected is
/// drawn as an outline, ware `n` is selected and drawn in colour.
pub open spec fn item_selected(before: GameState, after: GameState, n: usize) -> bool {
    &&& after.shop == (ShopState { selected: n, ..before.shop })
    &&& after.scoreboard@ == shop_item_drawn(
        shop_item_drawn(before.scoreboard@, before.shop, before.shop.selected, ShopItemFill::Clear),
        after.shop,
        n,
        ShopItemFill::FromItem,
    )
    &&& after.level == before.level
    &&& after.board == before.board
    &&& after.snake == before.snake
    &&& after.coins == before.coins
    &&& after.invinc_time == before.invinc_time
    &&& after.failed == before.failed
    &&& after.frame_num == before.frame_num
    &&& after.debug_screen == before.debug_screen
    &&& after.debug_info == before.debug_info
    &&& after.salt == before.salt
}

/// Selects ware `shop_item_num` of the shop and draws the change. A number
/// that is no ware's changes nothing.
pub fn set_shop_item_selected(s: &mut GameState, shop_item_num: usize)
    requires
        old(s).wf(),
    ensures
        final(s).wf(),
        shop_item_num >= NUM_SHOP_ITEMS ==> *final(s) == *old(s),
        shop_item_num < NUM_SHOP_ITEMS ==> item_selected(*old(s), *final(s), shop_item_num),
{
    if shop_item_num >= NUM_SHOP_ITEMS {
        return ;
    }
    let shop = s.shop;
    s.scoreboard.shop_item_display(&shop, shop.selected, ShopItemFill::Clear);
    s.shop.selected = shop_item_num;
    let shop = s.shop;
    s.scoreboard.shop_item_display(&shop, shop.selected, ShopItemFill::FromItem);
}

/// What the selected ware costs: its price times the multiplier.
pub open spec fn cost(shop: ShopState) -> int {
    shop.selected_item().price * shop.price_multiplier
}

/// What a purchase makes of the game, on a level that goes from `l` to `m`.
/// The coins go down by the cost. Water and seeds are scattered around the
/// head of the snake, invincibility lasts a hundred ticks longer, and the
/// other powerups do nothing yet. The wares are walled over on the
/// scoreboard, which leads to the game `paid`; the level puts new wares into
/// the shop, which leads to `stocked`; and the shop is drawn anew.
pub open spec fn bought<L: LevelState>(before: GameState, l: L, after: GameState, m: L) -> bool {
    let kind = before.shop.selected_item().kind;
    let head = before.snake.head_pos();
    &&& after.coins == before.coins - cost(before.shop)
    &&& match kind {
        PowerupType::Water => is_explosion_of(after.board@, before.board@, head, PlusWater(1)),
        PowerupType::Seed => is_explosion_of(after.board@, before.board@, head, PlusSeed(1)),
        _ => after.board@ == before.board@,
    }
    &&& after.invinc_time == if kind == PowerupType::Invincibility {
        if before.invinc_time + INVINC_TIME > usize::MAX {
            usize::MAX
        } else {
            (before.invinc_time + INVINC_TIME) as usize
        }
    } else {
        before.invinc_time
    }
    &&& after.shop.selected == before.shop.selected
    &&& after.shop.price_multiplier == before.shop.price_multiplier
    &&& after.scoreboard@ == shop_drawn(
        shop_removed(before.scoreboard@, before.shop, NUM_SHOP_ITEMS as int),
        after.shop,
        NUM_SHOP_ITEMS as int,
    )
    &&& after.level == before.level
    &&& after.snake == before.snake
    &&& after.failed == before.failed
    &&& after.frame_num == before.frame_num
    &&& after.debug_screen == before.debug_screen
    &&& after.debug_info == before.debug_info
    &&& after.salt == before.salt
    &&& exists|paid: GameState, stocked: GameState|
        {
            &&& paid.shop == before.shop
            &&& paid.board == after.board
            &&& stocked.shop == after.shop
            &&& #[trigger] wares_changed(paid, stocked)
            &&& L::restocks(l, m, paid, stocked)
        }
}

/// Buys the selected ware, if the coins suffice.
pub fn buy<L: LevelState>(s: &mut GameState, l: &mut L)
    requires
        old(s).wf(),
    ensures
        final(s).wf(),
        cost(old(s).shop) > old(s).coins ==> *final(s) == *old(s) && *final(l) == *old(l),
        cost(old(s).shop) <= old(s).coins ==> bought(*old(s), *old(l), *final(s), *final(l)),
        borders_kept(old(s).board@, final(s).board@),
{
    let ShopItem { kind, price } = s.shop.get_selected();
    let price = match price.checked_mul(s.shop.price_multiplier) {
        Some(price) => price,
        None => {
            // More than any number of coins.
            return ;
        },
    };
    if price > s.coins {
        return ;
    }
    s.coins -= price;
    let head = s.snake.head_pos();
    match kind {
        PowerupType::Water => {
            s.board.explosion(head, PlusWater(1));
            proof {
                let walks = choose|walks: Seq<Seq<Dir>>|
                    s.board@ == #[trigger] exploded(old(s).board@, head, walks, PlusWater(1));
                lemma_explosion_keeps_borders(old(s).board@, head, walks, PlusWater(1));
            }
        },
        PowerupType::Explosive => {},
        PowerupType::Shovel => {},
        PowerupType::Seed => {
            s.board.explosion(head, PlusSeed(1));
            proof {
                let walks = choose|walks: Seq<Seq<Dir>>|
                    s.board@ == #[trigger] exploded(old(s).board@, head, walks, PlusSeed(1));
                lemma_explosion_keeps_borders(old(s).board@, head, walks, PlusSeed(1));
            }
        },
        PowerupType::Invincibility => {
            s.invinc_time = s.invinc_time.saturating_add(INVINC_TIME);
        },
    }
    let shop = s.shop;
    s.scoreboard.shop_remove(&shop);
    let ghost paid = *s;
    l.reset_shop(s);
    let ghost stocked = *s;
    let shop = s.shop;
    s.scoreboard.shop(&shop);
    proof {
        assert(wares_changed(paid, stocked));
    }
}

/// What beginning `level` makes of the game: its terrain is read, the snake
/// is put back to the start, as long as it was and heading right, and the
/// run has not failed. The rest of the game goes on.
pub open spec fn level_begun(before: GameState, after: GameState, level: Level) -> bool {
    &&& after.level.name == level.name
    &&& after.level.raw_board@ == level.raw_board@
    &&& after.level.index == level.index
    &&& after.level.kind == level.kind
    &&& after.board@ == Board::<B_WIDTH, B_HEIGHT>::read(level.raw_board@)
    &&& after.snake.head_pos() == start_pos()
    &&& after.snake.direction() == Dir::Right
    &&& after.snake.len() == before.snake.len()
    &&& !after.failed
    &&& after.scoreboard == before.scoreboard
    &&& after.shop == before.shop
    &&& after.coins == before.coins
    &&& after.invinc_time == before.invinc_time
    &&& after.frame_num == before.frame_num
    &&& after.debug_screen == before.debug_screen
    &&& after.debug_info == before.debug_info
    &&& after.salt == before.salt
}

/// The level that a restart leads to: the level after the current one in
/// `levels`, or the current one again where it is the last.
pub open spec fn restart_level(s: GameState, levels: Seq<Level>) -> Level {
    if s.level.index + 1 < levels.len() {
        levels[s.level.index + 1]
    } else {
        s.level
    }
}

impl GameState {
    /// Begins the current level anew.
    pub fn reset_level(&mut self) -> (l: Option<CurrentLevel>)
        requires
            old(self).wf(),
        ensures
            final(self).wf(),
            l is Some,
            begins(l.unwrap(), old(self).level.kind),
            level_begun(*old(self), *final(self), old(self).level),
            final(self).level == old(self).level,
    {
        let l = new_level_state(self.level.kind);
        self.board = Board::from_bytes(self.level.raw_board.as_slice());
        self.snake = Snake::new(Coord { x: 5, y: 5 }, Dir::Right, self.snake.len());
        self.failed = false;
        Some(l)
    }

    /// Begins the level that a restart leads to: the level after the current
    /// one in `levels`, or the current one again where it is the last.
    pub fn next_level(&mut self, levels: &Vec<Level>) -> (l: Option<CurrentLevel>)
        requires
            old(self).wf(),
            forall|i: int| 0 <= i < levels@.len() ==> (#[trigger] levels@[i]).wf(),
        ensures
            final(self).wf(),
            l is Some,
            begins(l.unwrap(), restart_level(*old(self), levels@).kind),
            level_begun(*old(self), *final(self), restart_level(*old(self), levels@)),
    {
        if self.level.index < levels.len() && self.level.index + 1 < levels.len() {
            let current_level_index = self.level.index + 1;
            self.level = levels[current_level_index].duplicate();
        }
        self.reset_level()
    }
}

/// What a steering action makes of the game: the snake turns, unless the
/// run has failed or the turn would reverse it.
pub open spec fn steered(before: GameState, after: GameState, dir: Dir) -> bool {
    &&& only_snake_and_failed(before, after)
    &&& after.failed == before.failed
    &&& after.snake.head_pos() == before.snake.head_pos()
    &&& after.snake.len() == before.snake.len()
    &&& after.snake.direction() == if before.failed || dir == before.snake.direction().opposite() {
        before.snake.direction()
    } else {
        dir
    }
}

/// Turns the snake, unless the run has failed.
pub fn steer(s: &mut GameState, dir: Dir)
    requires
        old(s).wf(),
    ensures
        final(s).wf(),
        steered(*old(s), *final(s), dir),
{
    if !s.failed {
        s.snake.point(dir);
    }
}

/// The direction of a steering action.
pub open spec fn dir_of(action: UserAction) -> Option<Dir> {
    match action {
        UserAction::Up => Some(Dir::Up),
        UserAction::Left => Some(Dir::Left),
        UserAction::Down => Some(Dir::Down),
        UserAction::Right => Some(Dir::Right),
        _ => None,
    }
}

/// What `action` makes of the game `before` on a level in the state `l`: the
/// game `after` on a level in the state `m`.
/// - A direction steers the snake.
/// - The number of a ware selects it, and `Buy` buys the selected one where
///   the coins suffice.
/// - `Restart` begins the next level, or the current one again where it is
///   the last: the board is read anew, the snake is back at the start, and
///   the run has not failed.
/// - `Debug` switches the debug screen on or off.
/// - `Quit` changes nothing; it ends the loop that calls.
pub open spec fn acted(
    before: GameState,
    l: CurrentLevel,
    after: GameState,
    m: CurrentLevel,
    levels: Seq<Level>,
    action: UserAction,
) -> bool {
    match action {
        UserAction::Up | UserAction::Left | UserAction::Down | UserAction::Right => {
            &&& steered(before, after, dir_of(action).unwrap())
            &&& m == l
        },
        UserAction::ShopItem(n) => {
            &&& m == l
            &&& if n < NUM_SHOP_ITEMS {
                item_selected(before, after, n)
            } else {
                after == before
            }
        },
        UserAction::Buy => if cost(before.shop) <= before.coins {
            bought(before, l, after, m)
        } else {
            after == before && m == l
        },
        UserAction::Restart => {
            &&& begins(m, restart_level(before, levels).kind)
            &&& level_begun(before, after, restart_level(before, levels))
        },
        UserAction::Debug => {
            &&& after == (GameState { debug_screen: !before.debug_screen, ..before })
            &&& m == l
        },
        UserAction::Quit => after == before && m == l,
    }
}

/// Carries out one action of the user.
pub fn handle_action(
    s: &mut GameState,
    l: &mut CurrentLevel,
    levels: &Vec<Level>,
    action: UserAction,
)
    requires
        old(s).wf(),
        forall|i: int| 0 <= i < levels@.len() ==> (#[trigger] levels@[i]).wf(),
    ensures
        final(s).wf(),
        acted(*old(s), *old(l), *final(s), *final(l), levels@, action),
{
    match action {
        UserAction::Up => steer(s, Dir::Up),
        UserAction::Left => steer(s, Dir::Left),
        UserAction::Down => steer(s, Dir::Down),
        UserAction::Right => steer(s, Dir::Right),
        UserAction::ShopItem(shop_item_num) => {
            set_shop_item_selected(s, shop_item_num);
        },
        UserAction::Buy => {
            buy(s, l);
        },
        UserAction::Restart => {
            if let Some(level_state) = s.next_level(levels) {
                *l = level_state;
            }
        },
        UserAction::Debug => {
            s.debug_screen = !s.debug_screen;
        },
        UserAction::Quit => {},
    }
}

/// What the actions `actions`, carried out in their order, make of the game
/// `before` on a level in the state `l`.
pub open spec fn all_acted(
    before: GameState,
    l: CurrentLevel,
    after: GameState,
    m: CurrentLevel,
    levels: Seq<Level>,
    actions: Seq<UserAction>,
) -> bool
    decreases actions.len(),
{
    if actions.len() == 0 {
        after == before && m == l
    } else {
        exists|mid: GameState, ml: CurrentLevel|
            {
                &&& all_acted(before, l, mid, ml, levels, actions.drop_last())
                &&& mid.wf()
                &&& #[trigger] acted(mid, ml, after, m, levels, actions.last())
            }
    }
}

/// Where the actions but the last lead to `mid`, and the last leads on from
/// there to `after`, all the actions lead to `after`.
pub proof fn lemma_one_more_acted(
    before: GameState,
    l: CurrentLevel,
    mid: GameState,
    ml: CurrentLevel,
    after: GameState,
    m: CurrentLevel,
    levels: Seq<Level>,
    actions: Seq<UserAction>,
)
    requires
        actions.len() > 0,
        all_acted(before, l, mid, ml, levels, actions.drop_last()),
        mid.wf(),
        acted(mid, ml, after, m, levels, actions.last()),
    ensures
        all_acted(before, l, after, m, levels, actions),
{
}

/// Whether the user has asked to quit.
pub open spec fn asks_to_quit(actions: Seq<UserAction>) -> bool {
    exists|i: int| 0 <= i < actions.len() && (#[trigger] actions[i]) is Quit
}

/// Carries out all that the user has done since the last tick, in its order,
/// and tells whether the loop is to end: it is where the user has asked to
/// quit.
pub fn handle_actions(
    s: &mut GameState,
    l: &mut CurrentLevel,
    levels: &Vec<Level>,
    actions: &Vec<UserAction>,
) -> (quit: bool)
    requires
        old(s).wf(),
        forall|i: int| 0 <= i < levels@.len() ==> (#[trigger] levels@[i]).wf(),
    ensures
        final(s).wf(),
        all_acted(*old(s), *old(l), *final(s), *final(l), levels@, actions@),
        quit == asks_to_quit(actions@),
{
    let mut quit = false;
    let mut i: usize = 0;
    while i < actions.len()
        invariant
            i <= actions@.len(),
            s.wf(),
            forall|k: int| 0 <= k < levels@.len() ==> (#[trigger] levels@[k]).wf(),
            all_acted(*old(s), *old(l), *s, *l, levels@, actions@.take(i as int)),
            quit == asks_to_quit(actions@.take(i as int)),
        decreases actions@.len() - i,
    {
        let ghost mid = *s;
        let ghost ml = *l;
        let ghost done = actions@.take(i as int);
        let ghost next = actions@.take(i + 1);
        let action = actions[i];
        handle_action(s, l, levels, action);
        match action {
            UserAction::Quit => {
                quit = true;
            },
            _ => {},
        }
        proof {
            assert(next.drop_last() =~= done);
            assert(next.last() == action);
            assert(all_acted(*old(s), *old(l), mid, ml, levels@, next.drop_last()));
            lemma_one_more_acted(*old(s), *old(l), mid, ml, *s, *l, levels@, next);
            if asks_to_quit(done) {
                let k = choose|k: int| 0 <= k < done.len() && (#[trigger] done[k]) is Quit;
                assert(next[k] is Quit);
            }
            if action is Quit {
                assert(next[i as int] is Quit);
            }
            if asks_to_quit(next) {
                let k = choose|k: int| 0 <= k < next.len() && (#[trigger] next[k]) is Quit;
                if k < i {
                    assert(done[k] is Quit);
                }
            }
        }
        i += 1;
    }
    proof {
        assert(actions@.take(actions@.len() as int) =~= actions@);
    }
    quit
}

/// Sets up a game on the first of `levels`, with the scoreboard read from
/// `banner` and the shop of the level drawn on it.
pub fn reset(levels: &Vec<Level>, banner: &[u8]) -> (r: (GameState, CurrentLevel))
    requires
        levels@.len() > 0,
        levels@[0].wf(),
        banner@.len() == 3 * (SB_WIDTH * SB_HEIGHT),
    ensures
        r.0.wf(),
        begins(r.1, levels@[0].kind),
        r.0.level.name == levels@[0].name,
        r.0.level.raw_board@ == levels@[0].raw_board@,
        r.0.level.index == levels@[0].index,
        r.0.level.kind == levels@[0].kind,
        r.0.board@ == Board::<B_WIDTH, B_HEIGHT>::read(levels@[0].raw_board@),
        r.0.scoreboard@ == shop_drawn(
            Board::<SB_WIDTH, SB_HEIGHT>::read(banner@),
            r.0.shop,
            NUM_SHOP_ITEMS as int,
        ),
        first_shop(r.0.shop),
        r.0.snake.head_pos() == start_pos(),
        r.0.snake.direction() == Dir::Right,
        r.0.snake.len() == START_LEN,
        r.0.coins == START_COINS,
        r.0.invinc_time == 0,
        !r.0.failed,
        r.0.frame_num == 0,
        !r.0.debug_screen,
{
    let level = levels[0].duplicate();
    let mut l = new_level_state(level.kind);
    let shop = l.new_shop();
    let board = Board::from_bytes(level.raw_board.as_slice());
    let mut scoreboard: Board<SB_WIDTH, SB_HEIGHT> = Board::from_bytes(banner);
    scoreboard.shop(&shop);
    let snake = Snake::new(Coord { x: 5, y: 5 }, Dir::Right, START_LEN);
    let s = GameState {
        level,
        board,
        scoreboard,
        shop,
        snake,
        coins: START_COINS,
        invinc_time: 0,
        failed: false,
        frame_num: 0,
        debug_screen: false,
        debug_info: DebugInfo::default(),
        salt: random_u32(),
    };
    (s, l)
}

/// How long the loop sleeps after a tick that took `elapsed_micros`
/// microseconds: what is left of the budget of a tick, or one millisecond
/// where the tick has used it up.
pub fn sleep_micros(elapsed_micros: u128) -> (micros: u128)
    ensures
        micros == if elapsed_micros <= 1000 * LOGIC_MAX_MSPT {
            1000 * LOGIC_MAX_MSPT - elapsed_micros
        } else {
            1000
        },
{
    let budget: u128 = 1000 * (LOGIC_MAX_MSPT as u128);
    if elapsed_micros <= budget {
        budget - elapsed_micros
    } else {
        1000
    }
}

} // verus!
