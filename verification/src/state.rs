//! The state of a running game.

use vstd::prelude::*;
use crate::board::Board;
use crate::snake::Snake;
use crate::types::{PowerupType, B_HEIGHT, B_WIDTH, NUM_SHOP_ITEMS, SB_HEIGHT, SB_WIDTH};

verus! {

#[derive(Clone, Copy, PartialEq, Eq, Structural, Debug)]
pub struct ShopItem {
    pub kind: PowerupType,
    pub price: usize,
}

#[derive(Clone, Copy, Debug)]
pub struct ShopState {
    pub powerups: [ShopItem; NUM_SHOP_ITEMS],
    pub selected: usize,
    pub price_multiplier: usize,
}

impl ShopState {
    /// The selection points at one of the items.
    pub open spec fn wf(&self) -> bool {
        self.selected < NUM_SHOP_ITEMS
    }

    pub open spec fn selected_item(&self) -> ShopItem {
        self.powerups@[self.selected as int]
    }

    pub fn get_selected(&self) -> (item: ShopItem)
        requires
            self.wf(),
        ensures
            item == self.selected_item(),
    {
        self.powerups[self.selected]
    }

    pub fn get_selected_ref(&self) -> (item: &ShopItem)
        requires
            self.wf(),
        ensures
            *item == self.selected_item(),
    {
        &self.powerups[self.selected]
    }

    /// A reference to the selected item; what is written through it replaces
    /// that item and nothing else.
    pub fn get_selected_mut(&mut self) -> (item: &mut ShopItem)
        requires
            old(self).wf(),
        ensures
            *item == old(self).selected_item(),
            final(self).selected == old(self).selected,
            final(self).price_multiplier == old(self).price_multiplier,
            final(self).powerups@ == old(self).powerups@.update(old(self).selected as int, *final(item)),
    {
        &mut self.powerups[self.selected]
    }
}

/// The timing of the last tick, for the debug overlay.
#[derive(Clone, Copy, Debug)]
pub struct DebugInfo {
    /// Microseconds spent waiting for the lock.
    pub lock_uspt: u128,
    /// Microseconds spent on the tick as a whole.
    pub proc_uspt: u128,
}

impl Default for DebugInfo {
    fn default() -> (info: DebugInfo)
        ensures
            info.lock_uspt == 0,
            info.proc_uspt == 0,
    {
        DebugInfo { lock_uspt: 0, proc_uspt: 0 }
    }
}

/// Which per-tick behaviour a level has.
#[derive(Clone, Copy, PartialEq, Eq, Structural, Debug)]
pub enum LevelKind {
    Lakes,
    Volcano,
}

#[derive(Debug)]
pub struct Level {
    pub name: String,
    /// The level's terrain: three bytes for each cell of the board.
    pub raw_board: Vec<u8>,
    /// The place of this level in the list of levels.
    pub index: usize,
    pub kind: LevelKind,
}

impl Level {
    /// The terrain holds one record for each cell of the board.
    pub open spec fn wf(&self) -> bool {
        self.raw_board@.len() == 3 * (B_WIDTH * B_HEIGHT)
    }
}

pub struct GameState {
    pub level: Level,
    pub board: Board<B_WIDTH, B_HEIGHT>,
    pub scoreboard: Board<SB_WIDTH, SB_HEIGHT>,
    pub shop: ShopState,
    pub snake: Snake,
    pub coins: usize,
    /// The ticks for which walls and lava do not hurt.
    pub invinc_time: usize,
    pub failed: bool,
    /// The number of ticks since the game began.
    pub frame_num: usize,
    pub debug_screen: bool,
    pub debug_info: DebugInfo,
    /// Mixed into every cell's draw, so that no two sessions flow alike.
    pub salt: u32,
}

impl GameState {
    pub open spec fn wf(&self) -> bool {
        &&& self.level.wf()
        &&& self.shop.wf()
        &&& self.snake.head_pos().in_bounds()
    }
}

} // verus!
