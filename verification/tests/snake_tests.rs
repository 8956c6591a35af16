use snaek::snake::Snake;
use snaek::types::{Coord, Dir, B_HEIGHT, B_WIDTH};

#[test]
fn point_rejects_reversal() {
    let mut snake = Snake::new(Coord { x: 5, y: 5 }, Dir::Right, 5);
    snake.point(Dir::Left);
    assert_eq!(snake.direction(), Dir::Right);
    snake.point(Dir::Up);
    assert_eq!(snake.direction(), Dir::Up);
    snake.point(Dir::Down);
    assert_eq!(snake.direction(), Dir::Up);
    snake.point(Dir::Left);
    assert_eq!(snake.direction(), Dir::Left);
    snake.point(Dir::Left);
    assert_eq!(snake.direction(), Dir::Left);
}

#[test]
fn add_wrapped_crosses_all_four_edges() {
    let y = 7;
    assert_eq!(Coord { x: 0, y }.add_wrapped(Dir::Left), Coord { x: B_WIDTH - 1, y });
    assert_eq!(Coord { x: B_WIDTH - 1, y }.add_wrapped(Dir::Right), Coord { x: 0, y });
    let x = 9;
    assert_eq!(Coord { x, y: 0 }.add_wrapped(Dir::Up), Coord { x, y: B_HEIGHT - 1 });
    assert_eq!(Coord { x, y: B_HEIGHT - 1 }.add_wrapped(Dir::Down), Coord { x, y: 0 });
}

#[test]
fn checked_steps_stop_at_the_edges() {
    let c = Coord { x: 0, y: 0 };
    assert_eq!(c.add_checked(Dir::Left), None);
    assert_eq!(c.add_checked(Dir::Up), None);
    assert_eq!(c.add_checked(Dir::Right), Some(Coord { x: 1, y: 0 }));
    assert_eq!(c.add_checked(Dir::Down), Some(Coord { x: 0, y: 1 }));
    let c = Coord { x: B_WIDTH - 1, y: B_HEIGHT - 1 };
    assert_eq!(c.add_checked(Dir::Right), None);
    assert_eq!(c.add_checked(Dir::Down), None);
    assert_eq!(c.sub_checked(Dir::Left), None);
    assert_eq!(c.sub_checked(Dir::Up), None);
    assert_eq!(c.sub_checked(Dir::Right), Some(Coord { x: B_WIDTH - 2, y: B_HEIGHT - 1 }));
    assert_eq!(c.sub_checked(Dir::Down), Some(Coord { x: B_WIDTH - 1, y: B_HEIGHT - 2 }));
    // One step can lead back onto the board.
    assert_eq!(
        Coord { x: B_WIDTH, y: 3 }.add_checked(Dir::Left),
        Some(Coord { x: B_WIDTH - 1, y: 3 })
    );
    assert_eq!(Coord { x: B_WIDTH, y: 3 }.add_checked(Dir::Up), None);
    assert_eq!(Coord { x: usize::MAX, y: 3 }.add_checked(Dir::Right), None);
}

#[test]
fn sub_wrapped_goes_the_other_way() {
    let y = 7;
    assert_eq!(Coord { x: 0, y }.sub_wrapped(Dir::Right), Coord { x: B_WIDTH - 1, y });
    assert_eq!(Coord { x: B_WIDTH - 1, y }.sub_wrapped(Dir::Left), Coord { x: 0, y });
    assert_eq!(Coord { x: 4, y: 0 }.sub_wrapped(Dir::Down), Coord { x: 4, y: B_HEIGHT - 1 });
    assert_eq!(Coord { x: 4, y }.sub_wrapped(Dir::Up), Coord { x: 4, y: y + 1 });
    assert_eq!(Coord { x: 4, y }.add_wrapped(Dir::Right), Coord { x: 5, y });
}

#[test]
fn directions_and_their_opposites() {
    assert_eq!(Dir::Up.get_diff(), (0, -1));
    assert_eq!(Dir::Left.get_diff(), (-1, 0));
    assert_eq!(Dir::Down.get_diff(), (0, 1));
    assert_eq!(Dir::Right.get_diff(), (1, 0));
    for (a, b) in [(Dir::Up, Dir::Down), (Dir::Left, Dir::Right)] {
        assert!(a.is_opposite(b));
        assert!(b.is_opposite(a));
        assert!(!a.is_opposite(a));
    }
    assert!(!Dir::Up.is_opposite(Dir::Left));
    assert_eq!(Dir::from_draw(0), Dir::Up);
    assert_eq!(Dir::from_draw(1), Dir::Left);
    assert_eq!(Dir::from_draw(2), Dir::Down);
    assert_eq!(Dir::from_draw(3), Dir::Right);
}

#[test]
fn the_snake_moves_eats_and_wraps() {
    let mut snake = Snake::new(Coord { x: B_WIDTH - 1, y: 2 }, Dir::Right, 3);
    snake.advance();
    assert_eq!(snake.head_pos(), Coord { x: 0, y: 2 });
    assert_eq!(snake.len(), 3);
    snake.add_food(4);
    assert_eq!(snake.len(), 7);
    assert_eq!(snake.direction(), Dir::Right);
    assert!(snake.head_pos().in_bounds());
    assert!(!Coord { x: B_WIDTH, y: 0 }.in_bounds());
    assert!(!Coord { x: 0, y: B_HEIGHT }.in_bounds());
    assert_eq!(Coord::from((3, 4)), Coord { x: 3, y: 4 });
}
