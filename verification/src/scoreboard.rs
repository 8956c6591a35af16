//! What is drawn onto the scoreboard: the wares of the shop with their
//! prices, the price multiplier and the coins.

use vstd::prelude::*;
use crate::art::Fill;
use crate::shapes::{
    dist_between, full_line, is_sqrt, lemma_dist_is, letter_drawn, line_fits, text_drawn,
    write_chars, write_letter, BoardArt,
};
use crate::board::Board;
use crate::state::{ShopItem, ShopState};
use crate::text::{
    decimal, decimal_digits, powerup_code, powerup_sign, sign_cells, sign_grid, C_HEIGHT, C_WIDTH,
};
use crate::types::{
    CellFloor, CellObject, CellState, Coord, PowerupType, NUM_SHOP_ITEMS, SB_HEIGHT, SB_WIDTH,
};

verus! {

/// How a ware of the shop is drawn.
#[derive(Clone, Copy, PartialEq, Eq, Structural, Debug)]
pub enum ShopItemFill {
    /// Walled over, so that nothing of it is seen.
    Remove,
    /// As an outline on empty ground.
    Clear,
    /// In the colour of its powerup.
    FromItem,
}

pub const SHOP_X: usize = 2;

pub const SHOP_Y: usize = 3;

pub const SHOP_ITEM_H: usize = 15;

pub const PM_X: usize = SHOP_X + 6;

pub const PM_Y: usize = SHOP_Y + NUM_SHOP_ITEMS * SHOP_ITEM_H + 2;

pub const COINS_X: usize = SHOP_X + 6;

pub const COINS_Y: usize = PM_Y + 7;

/// The length of an edge of the frame around a ware.
pub const EDGE_WIDTH: usize = 7;

/// How far to the right of the frame's corner the price begins.
pub const PRICE_X: usize = EDGE_WIDTH + 5;

/// The price that is shown for a ware: its price times the multiplier, or
/// the greatest machine number where the product is greater than that.
pub open spec fn shown_price(price: usize, multiplier: usize) -> usize {
    if price * multiplier > usize::MAX {
        usize::MAX
    } else {
        (price * multiplier) as usize
    }
}

/// The grid with a ware drawn at `(x, y)`: a frame of four lines, the sign
/// of the powerup inside it, and the price to its right.
pub open spec fn item_drawn<F: Fill>(
    grid: Seq<Seq<CellState>>,
    kind: PowerupType,
    price: usize,
    x: usize,
    y: usize,
    fill: F,
) -> Seq<Seq<CellState>> {
    let top = full_line(
        grid,
        Coord { x: (x + 1) as usize, y },
        Coord { x: (x + EDGE_WIDTH) as usize, y },
        fill,
    );
    let right = full_line(
        top,
        Coord { x: (x + EDGE_WIDTH + 1) as usize, y: (y + 1) as usize },
        Coord { x: (x + EDGE_WIDTH + 1) as usize, y: (y + EDGE_WIDTH) as usize },
        fill,
    );
    let bottom = full_line(
        right,
        Coord { x: (x + 1) as usize, y: (y + EDGE_WIDTH + 1) as usize },
        Coord { x: (x + EDGE_WIDTH) as usize, y: (y + EDGE_WIDTH + 1) as usize },
        fill,
    );
    let left = full_line(
        bottom,
        Coord { x, y: (y + 1) as usize },
        Coord { x, y: (y + EDGE_WIDTH) as usize },
        fill,
    );
    let sign = letter_drawn(left, sign_cells(powerup_code(kind)), 5, x + 2, y + 2, fill, ());
    text_drawn(
        sign,
        decimal(price as int),
        decimal(price as int).len() as int,
        x + PRICE_X,
        y + 2,
        fill,
        (),
    )
}

/// The grid with ware `item_num` of the shop drawn in the given way. A
/// number that is no ware's leaves the grid as it is.
pub open spec fn shop_item_drawn(
    grid: Seq<Seq<CellState>>,
    shop: ShopState,
    item_num: usize,
    way: ShopItemFill,
) -> Seq<Seq<CellState>> {
    if item_num >= NUM_SHOP_ITEMS {
        grid
    } else {
        let item = shop.powerups@[item_num as int];
        let price = shown_price(item.price, shop.price_multiplier);
        let y = (SHOP_Y + SHOP_ITEM_H * item_num) as usize;
        match way {
            ShopItemFill::Remove => item_drawn(
                grid,
                item.kind,
                price,
                SHOP_X,
                y,
                (CellFloor::Empty, CellObject::Wall),
            ),
            ShopItemFill::Clear => item_drawn(
                grid,
                item.kind,
                price,
                SHOP_X,
                y,
                (CellFloor::Empty, CellObject::Nothing),
            ),
            ShopItemFill::FromItem => item_drawn(
                grid,
                item.kind,
                price,
                SHOP_X,
                y,
                (item.kind, CellObject::Nothing),
            ),
        }
    }
}

/// How ware `item_num` is drawn while the shop is open: the selected one in
/// the colour of its powerup, the others as outlines.
pub open spec fn way_of(shop: ShopState, item_num: usize) -> ShopItemFill {
    if item_num == shop.selected {
        ShopItemFill::FromItem
    } else {
        ShopItemFill::Clear
    }
}

/// The grid with the first `count` wares of the shop drawn.
pub open spec fn shop_drawn(grid: Seq<Seq<CellState>>, shop: ShopState, count: int) -> Seq<
    Seq<CellState>,
>
    decreases count,
{
    if count <= 0 {
        grid
    } else {
        shop_item_drawn(
            shop_drawn(grid, shop, count - 1),
            shop,
            (count - 1) as usize,
            way_of(shop, (count - 1) as usize),
        )
    }
}

/// The grid with the first `count` wares of the shop walled over.
pub open spec fn shop_removed(grid: Seq<Seq<CellState>>, shop: ShopState, count: int) -> Seq<
    Seq<CellState>,
>
    decreases count,
{
    if count <= 0 {
        grid
    } else {
        shop_item_drawn(
            shop_removed(grid, shop, count - 1),
            shop,
            (count - 1) as usize,
            ShopItemFill::Remove,
        )
    }
}

/// The grid with the number `n` written at `(x, y)` with `fill`.
pub open spec fn number_drawn<F: Fill>(
    grid: Seq<Seq<CellState>>,
    n: usize,
    x: usize,
    y: usize,
    fill: F,
) -> Seq<Seq<CellState>> {
    text_drawn(grid, decimal(n as int), decimal(n as int).len() as int, x as int, y as int, fill, ())
}

/// The most digits that a machine number has.
pub const MAX_DIGITS: usize = 20;

/// Whether a ware drawn at `at` can be worked out in machine numbers: the
/// lines of its frame, which are seven steps long, and its price, which has
/// at most twenty digits.
pub open spec fn item_fits(at: Coord) -> bool {
    &&& (at.x + EDGE_WIDTH + 1) * EDGE_WIDTH <= usize::MAX
    &&& (at.y + EDGE_WIDTH + 1) * EDGE_WIDTH <= usize::MAX
    &&& at.x + PRICE_X + (C_WIDTH + 1) * (MAX_DIGITS + 1) <= usize::MAX
}

/// Draws a ware at `at`.
pub fn draw_item<B: BoardArt, F: Fill + Copy>(
    board: &mut B,
    kind: PowerupType,
    price: usize,
    at: Coord,
    fill: F,
)
    requires
        item_fits(at),
    ensures
        final(board).grid() == item_drawn(old(board).grid(), kind, price, at.x, at.y, fill),
{
    let Coord { x, y } = at;
    proof {
        lemma_edge(Coord { x: (x + 1) as usize, y }, Coord { x: (x + EDGE_WIDTH) as usize, y });
        lemma_edge(
            Coord { x: (x + EDGE_WIDTH + 1) as usize, y: (y + 1) as usize },
            Coord { x: (x + EDGE_WIDTH + 1) as usize, y: (y + EDGE_WIDTH) as usize },
        );
        lemma_edge(
            Coord { x: (x + 1) as usize, y: (y + EDGE_WIDTH + 1) as usize },
            Coord { x: (x + EDGE_WIDTH) as usize, y: (y + EDGE_WIDTH + 1) as usize },
        );
        lemma_edge(Coord { x, y: (y + 1) as usize }, Coord { x, y: (y + EDGE_WIDTH) as usize });
    }
    board.line(Coord { x: x + 1, y }, Coord { x: x + EDGE_WIDTH, y }, fill);
    board.line(
        Coord { x: x + EDGE_WIDTH + 1, y: y + 1 },
        Coord { x: x + EDGE_WIDTH + 1, y: y + EDGE_WIDTH },
        fill,
    );
    board.line(
        Coord { x: x + 1, y: y + EDGE_WIDTH + 1 },
        Coord { x: x + EDGE_WIDTH, y: y + EDGE_WIDTH + 1 },
        fill,
    );
    board.line(Coord { x, y: y + 1 }, Coord { x, y: y + EDGE_WIDTH }, fill);
    let sign = sign_grid(powerup_sign(kind));
    proof {
        assert(Seq::new(5, |dy: int| sign@[dy]@) =~= sign_cells(powerup_code(kind)));
    }
    write_letter(&sign, x + 2, y + 2, board, fill, ());
    let digits = decimal_digits(price);
    write_chars(board, &digits, Coord { x: x + PRICE_X, y: y + 2 }, fill, ());
}

/// An edge of a frame runs straight for six cells, so its two ends are six
/// apart and the line between them has seven steps.
pub proof fn lemma_edge(from: Coord, to: Coord)
    requires
        (from.x == to.x && to.y - from.y == 6) || (from.y == to.y && to.x - from.x == 6),
        to.x * EDGE_WIDTH <= usize::MAX,
        to.y * EDGE_WIDTH <= usize::MAX,
    ensures
        dist_between(from, to) == 6,
        line_fits(from, to),
{
    let dx: int = from.x - to.x;
    let dy: int = from.y - to.y;
    if from.x == to.x {
        assert(dx == 0 && dy == -6);
        assert(dx * dx + dy * dy == 36);
    } else {
        assert(dx == -6 && dy == 0);
        assert(dx * dx + dy * dy == 36);
    }
    assert(is_sqrt(6, 36));
    lemma_dist_is(from, to, 6);
}

/// Draws ware `item_num` of the shop in the given way.
pub fn draw_shop_item<B: BoardArt>(board: &mut B, shop: &ShopState, item_num: usize, fill: ShopItemFill)
    ensures
        final(board).grid() == shop_item_drawn(old(board).grid(), *shop, item_num, fill),
{
    if item_num >= NUM_SHOP_ITEMS {
        return ;
    }
    let y = SHOP_Y + SHOP_ITEM_H * item_num;
    let at = Coord { x: SHOP_X, y };
    let ShopItem { kind, price } = shop.powerups[item_num];
    let price = match price.checked_mul(shop.price_multiplier) {
        Some(price) => price,
        None => usize::MAX,
    };
    match fill {
        ShopItemFill::Remove => draw_item(board, kind, price, at, (CellFloor::Empty, CellObject::Wall)),
        ShopItemFill::Clear => draw_item(
            board,
            kind,
            price,
            at,
            (CellFloor::Empty, CellObject::Nothing),
        ),
        ShopItemFill::FromItem => draw_item(board, kind, price, at, (kind, CellObject::Nothing)),
    }
}

/// Writes the number `n` at `at` with `fill`.
pub fn draw_number<B: BoardArt, F: Fill + Copy>(board: &mut B, n: usize, at: Coord, fill: F)
    requires
        at.x + (C_WIDTH + 1) * (MAX_DIGITS + 1) <= usize::MAX,
        at.y + C_HEIGHT <= usize::MAX,
    ensures
        final(board).grid() == number_drawn(old(board).grid(), n, at.x, at.y, fill),
{
    let digits = decimal_digits(n);
    write_chars(board, &digits, at, fill, ());
}

/// What is drawn onto a scoreboard.
pub trait ScoreboardArt: BoardArt {
    /// Draws the wares of the shop, the selected one in colour.
    fn shop(&mut self, shop: &ShopState)
        ensures
            final(self).grid() == shop_drawn(old(self).grid(), *shop, NUM_SHOP_ITEMS as int),
    ;

    /// Walls the wares of the shop over.
    fn shop_remove(&mut self, shop: &ShopState)
        ensures
            final(self).grid() == shop_removed(old(self).grid(), *shop, NUM_SHOP_ITEMS as int),
    ;

    /// Writes the price multiplier.
    fn pm(&mut self, shop: &ShopState)
        ensures
            final(self).grid() == number_drawn(
                old(self).grid(),
                shop.price_multiplier,
                PM_X,
                PM_Y,
                CellObject::Nothing,
            ),
    ;

    /// Walls the price multiplier over.
    fn pm_remove(&mut self, shop: &ShopState)
        ensures
            final(self).grid() == number_drawn(
                old(self).grid(),
                shop.price_multiplier,
                PM_X,
                PM_Y,
                CellObject::Wall,
            ),
    ;

    /// Writes the coins.
    fn coins(&mut self, coins: usize)
        ensures
            final(self).grid() == number_drawn(
                old(self).grid(),
                coins,
                COINS_X,
                COINS_Y,
                CellObject::Nothing,
            ),
    ;

    /// Walls the coins over.
    fn coins_remove(&mut self, coins: usize)
        ensures
            final(self).grid() == number_drawn(
                old(self).grid(),
                coins,
                COINS_X,
                COINS_Y,
                CellObject::Wall,
            ),
    ;

    /// Draws ware `item_num` of the shop in the given way.
    fn shop_item_display(&mut self, shop: &ShopState, item_num: usize, fill: ShopItemFill)
        ensures
            final(self).grid() == shop_item_drawn(old(self).grid(), *shop, item_num, fill),
    ;
}

impl ScoreboardArt for Board<SB_WIDTH, SB_HEIGHT> {
    fn shop(&mut self, shop: &ShopState) {
        let mut item_num: usize = 0;
        while item_num < NUM_SHOP_ITEMS
            invariant
                item_num <= NUM_SHOP_ITEMS,
                self@ == shop_drawn(old(self)@, *shop, item_num as int),
            decreases NUM_SHOP_ITEMS - item_num,
        {
            draw_shop_item(
                self,
                shop,
                item_num,
                if item_num == shop.selected {
                    ShopItemFill::FromItem
                } else {
                    ShopItemFill::Clear
                },
            );
            item_num += 1;
        }
    }

    fn shop_remove(&mut self, shop: &ShopState) {
        let mut item_num: usize = 0;
        while item_num < NUM_SHOP_ITEMS
            invariant
                item_num <= NUM_SHOP_ITEMS,
                self@ == shop_removed(old(self)@, *shop, item_num as int),
            decreases NUM_SHOP_ITEMS - item_num,
        {
            draw_shop_item(self, shop, item_num, ShopItemFill::Remove);
            item_num += 1;
        }
    }

    fn pm(&mut self, shop: &ShopState) {
        draw_number(self, shop.price_multiplier, Coord { x: PM_X, y: PM_Y }, CellObject::Nothing);
    }

    fn pm_remove(&mut self, shop: &ShopState) {
        draw_number(self, shop.price_multiplier, Coord { x: PM_X, y: PM_Y }, CellObject::Wall);
    }

    fn coins(&mut self, coins: usize) {
        draw_number(self, coins, Coord { x: COINS_X, y: COINS_Y }, CellObject::Nothing);
    }

    fn coins_remove(&mut self, coins: usize) {
        draw_number(self, coins, Coord { x: COINS_X, y: COINS_Y }, CellObject::Wall);
    }

    fn shop_item_display(&mut self, shop: &ShopState, item_num: usize, fill: ShopItemFill) {
        draw_shop_item(self, shop, item_num, fill);
    }
}

} // verus!
