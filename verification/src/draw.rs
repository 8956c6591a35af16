//! What the renderer needs worked out before it can draw: which part of the
//! board is in view, which colour an object has, and the state of the debug
//! screen. Drawing itself is left to a frontend.

use vstd::prelude::*;
use crate::board::Board;
use crate::game::UserAction;
use crate::types::{CellFloor, CellObject, IndicatorType, SnakeColor};

verus! {

/// A colour as red, green and blue.
pub type Color = (u8, u8, u8);

/// A rectangle of pixels: the left and upper edge, the width and the height.
pub type Rect = (i32, i32, u32, u32);

/// The width of the debug screen in cells.
pub const DS_WIDTH: usize = 100;

/// The height of the debug screen in cells.
pub const DS_HEIGHT: usize = 100;

/// The width of a cell of the board in pixels.
pub const C_SIZE: usize = 10;

/// A window that can be drawn on and that hands on what the user does.
pub trait Frontend: Sized {
    fn screen_size(&self) -> (u32, u32);

    fn clear(&mut self);

    fn set_color(&mut self, color: Color);

    fn present(&mut self);

    fn draw_rect(&mut self, rect: Rect);

    fn get_actions(&mut self) -> Vec<UserAction>;
}

/// The timing of the last drawn frame, for the debug overlay.
#[derive(Clone, Copy, Debug)]
pub struct ViewDebugInfo {
    /// Microseconds spent waiting for the lock.
    pub lock_uspt: u128,
    /// Microseconds spent on the frame as a whole.
    pub disp_uspt: u128,
}

impl Default for ViewDebugInfo {
    fn default() -> (info: ViewDebugInfo)
        ensures
            info.lock_uspt == 0,
            info.disp_uspt == 0,
    {
        ViewDebugInfo { lock_uspt: 0, disp_uspt: 0 }
    }
}

/// What the renderer keeps from frame to frame.
pub struct ViewState {
    pub debug_screen: Board<DS_WIDTH, DS_HEIGHT>,
    pub debug_info: ViewDebugInfo,
}

/// The state with which the renderer begins: a debug screen of empty
/// indicators and no timing yet.
pub fn reset_view_state() -> (v: ViewState)
    ensures
        forall|x: int, y: int|
            0 <= x < DS_WIDTH && 0 <= y < DS_HEIGHT ==> (#[trigger] v.debug_screen.at(x, y)).floor
                == CellFloor::Indicator(IndicatorType::Empty),
        v.debug_info.lock_uspt == 0,
        v.debug_info.disp_uspt == 0,
{
    ViewState {
        debug_screen: Board::<DS_WIDTH, DS_HEIGHT>::new_filled(
            CellFloor::Indicator(IndicatorType::Empty),
        ),
        debug_info: ViewDebugInfo::default(),
    }
}

/// The stretch of `0..limit` that is in view when `visible` cells fit on the
/// screen and the view is centred on `center`: `visible` cells with the
/// centre in their middle, pushed back where they would reach past the far
/// edge, and the whole of `0..limit` where they would reach past the near
/// edge.
pub open spec fn view_range(center: int, visible: int, limit: int) -> (int, int) {
    let start = center - visible / 2;
    let (start, stop) = if start + visible > limit {
        (limit - visible, limit)
    } else {
        (start, start + visible)
    };
    if start < 0 {
        (0, limit)
    } else {
        (start, stop)
    }
}

/// Works out which stretch of `0..limit` is in view.
pub fn view_window(center: usize, visible: usize, limit: usize) -> (r: (usize, usize))
    ensures
        (r.0 as int, r.1 as int) == view_range(center as int, visible as int, limit as int),
        r.0 <= r.1 <= limit,
{
    let half = visible / 2;
    if center < half {
        // The view would begin before the near edge.
        return (0, limit);
    }
    let start = center - half;
    if start > limit || visible > limit - start {
        // The view would end behind the far edge.
        if visible > limit {
            (0, limit)
        } else {
            (limit - visible, limit)
        }
    } else {
        (start, start + visible)
    }
}

/// The colour of a wall.
pub const WALL_COLOR: Color = (0x00, 0x00, 0x00);

/// The colour of food.
pub const FOOD_COLOR: Color = (0x11, 0xff, 0x00);

/// The colour of the border.
pub const BORDER_COLOR: Color = (0x42, 0x00, 0x5e);

/// The colour of empty ground at sea level.
pub const EMPTY_COLOR: Color = (0xff, 0xff, 0xff);

pub const SNAKE_COLOR_LIGHT_RED: Color = (0xff, 0x60, 0x38);

pub const SNAKE_COLOR_DARK_RED: Color = (0x87, 0x1d, 0x03);

pub const SNAKE_COLOR_HEAD: Color = (0xeb, 0x9b, 0x2d);

/// The colour of the powerup of invincibility, and of the head of a snake
/// that has it.
pub const INVINC_COLOR: Color = (0x26, 0x26, 0x26);

/// The colour in which an object is drawn. The head of the snake shows
/// whether the snake is invincible.
pub open spec fn object_color(obj: CellObject, invinc_time: usize) -> Option<Color> {
    match obj {
        CellObject::Nothing => Some(EMPTY_COLOR),
        CellObject::Wall => Some(WALL_COLOR),
        CellObject::Snake(SnakeColor::DarkRed, _) => Some(SNAKE_COLOR_DARK_RED),
        CellObject::Snake(SnakeColor::LightRed, _) => Some(SNAKE_COLOR_LIGHT_RED),
        CellObject::Snake(SnakeColor::Head, _) => Some(
            if invinc_time != 0 {
                INVINC_COLOR
            } else {
                SNAKE_COLOR_HEAD
            },
        ),
        CellObject::Food(_) => Some(FOOD_COLOR),
        CellObject::Border => Some(BORDER_COLOR),
    }
}

pub fn get_object_color(obj: CellObject, invinc_time: usize) -> (color: Option<Color>)
    ensures
        color == object_color(obj, invinc_time),
{
    match obj {
        CellObject::Nothing => Some(EMPTY_COLOR),
        CellObject::Wall => Some(WALL_COLOR),
        CellObject::Snake(SnakeColor::DarkRed, _) => Some(SNAKE_COLOR_DARK_RED),
        CellObject::Snake(SnakeColor::LightRed, _) => Some(SNAKE_COLOR_LIGHT_RED),
        CellObject::Snake(SnakeColor::Head, _) => Some(
            if invinc_time != 0 {
                INVINC_COLOR
            } else {
                SNAKE_COLOR_HEAD
            },
        ),
        CellObject::Food(_) => Some(FOOD_COLOR),
        CellObject::Border => Some(BORDER_COLOR),
    }
}

} // verus!
