use snake_core::components::{axis_of, opposite_of};
use snake_core::{Axial, Direction, GameState, GridConfig, Position};

fn pos(x: i32, y: i32) -> Position {
    Position { x, y }
}

#[test]
fn growth_tick_appends_at_tail() {
    let grid = GridConfig::new(10, 10);
    let segs = vec![pos(0, 2), pos(0, 1), pos(0, 0)];
    let mut game =
        GameState::from_parts(grid, segs, Direction::Up, Direction::Up, Some(pos(0, 3))).unwrap();
    let r = game.on_movement_tick();
    assert_eq!(r.head, pos(0, 3));
    assert!(r.ate_food);
    assert!(!r.game_over);
    assert_eq!(r.segments, vec![pos(0, 3), pos(0, 2), pos(0, 1), pos(0, 0)]);
    assert_eq!(game.segments().len(), 4);
    assert!(game.current_food_position().is_none());
}

#[test]
fn growth_is_exactly_one_and_not_delayed() {
    let grid = GridConfig::new(10, 10);
    let segs = vec![pos(0, 2), pos(0, 1), pos(0, 0)];
    let mut game =
        GameState::from_parts(grid, segs, Direction::Up, Direction::Up, Some(pos(0, 3))).unwrap();
    let r = game.on_movement_tick();
    assert!(r.ate_food);
    assert_eq!(game.segments().len(), 4);
    let r2 = game.on_movement_tick();
    assert!(!r2.ate_food);
    assert!(!r2.game_over);
    assert_eq!(game.segments().len(), 4);
}

#[test]
fn reversal_is_rejected() {
    let grid = GridConfig::new(10, 10);
    let segs = vec![pos(5, 5), pos(5, 4)];
    let mut game =
        GameState::from_parts(grid, segs, Direction::Up, Direction::Up, None).unwrap();
    game.set_direction_intent(Direction::Down);
    let r = game.on_movement_tick();
    assert_eq!(r.head, pos(5, 6));
    assert!(!r.game_over);
    assert_eq!(game.heading(), Direction::Up);
}

#[test]
fn reversal_cannot_chain_through_intermediate() {
    let grid = GridConfig::new(10, 10);
    let segs = vec![pos(5, 5), pos(5, 4)];
    let mut game =
        GameState::from_parts(grid, segs, Direction::Up, Direction::Up, None).unwrap();
    game.set_direction_intent(Direction::Left);
    game.set_direction_intent(Direction::Down);
    let r = game.on_movement_tick();
    assert_eq!(game.heading(), Direction::Left);
    assert_eq!(r.head, pos(4, 5));
}

#[test]
fn self_collision_resets_to_canonical() {
    let grid = GridConfig::new(10, 10);
    let segs = vec![pos(3, 3), pos(3, 2), pos(3, 1)];
    let mut game =
        GameState::from_parts(grid, segs, Direction::Down, Direction::Down, None).unwrap();
    let r = game.on_movement_tick();
    assert!(r.game_over);
    assert_eq!(r.head, pos(3, 2));
    assert_eq!(game.segments(), &vec![pos(0, 2), pos(0, 1), pos(0, 0)]);
    assert_eq!(game.heading(), Direction::Up);
    assert!(game.current_food_position().is_none());
}

#[test]
fn wall_collision_resets() {
    let mut game = GameState::new(GridConfig::new(1, 3));
    let r = game.on_movement_tick();
    assert!(r.game_over);
    assert_eq!(r.head, pos(0, 3));
    assert_eq!(game.segments(), &vec![pos(0, 2), pos(0, 1), pos(0, 0)]);
    assert_eq!(game.heading(), Direction::Up);
}

#[test]
fn length_constant_and_motion_unit_without_food() {
    let mut game = GameState::new(GridConfig::new(10, 10));
    let steering = [
        Direction::Up,
        Direction::Right,
        Direction::Down,
        Direction::Left,
        Direction::Up,
    ];
    let mut prev_head = pos(0, 2);
    for d in steering {
        game.set_direction_intent(d);
        let r = game.on_movement_tick();
        assert!(!r.game_over);
        assert!(!r.ate_food);
        assert_eq!(game.segments().len(), 3);
        let dist = (r.head.x - prev_head.x).abs() + (r.head.y - prev_head.y).abs();
        assert_eq!(dist, 1);
        prev_head = r.head;
        let segs = game.segments();
        for i in 0..segs.len() {
            for j in (i + 1)..segs.len() {
                assert_ne!(segs[i], segs[j]);
            }
        }
        for i in 0..segs.len() - 1 {
            let gap = (segs[i].x - segs[i + 1].x).abs() + (segs[i].y - segs[i + 1].y).abs();
            assert_eq!(gap, 1);
        }
    }
}

#[test]
fn from_parts_rejects_broken_states() {
    let grid = GridConfig::new(10, 10);
    // duplicate segment cells
    assert!(GameState::from_parts(
        grid,
        vec![pos(1, 1), pos(1, 2), pos(1, 1)],
        Direction::Up,
        Direction::Up,
        None
    )
    .is_none());
    // fewer than two segments
    assert!(GameState::from_parts(grid, vec![pos(1, 1)], Direction::Up, Direction::Up, None)
        .is_none());
    // a segment off the board
    assert!(GameState::from_parts(
        grid,
        vec![pos(10, 0), pos(9, 0)],
        Direction::Up,
        Direction::Up,
        None
    )
    .is_none());
    // intent reversing the heading
    assert!(GameState::from_parts(
        grid,
        vec![pos(1, 1), pos(1, 0)],
        Direction::Up,
        Direction::Down,
        None
    )
    .is_none());
    // food on the body
    assert!(GameState::from_parts(
        grid,
        vec![pos(1, 1), pos(1, 0)],
        Direction::Up,
        Direction::Up,
        Some(pos(1, 0))
    )
    .is_none());
    // food off the board
    assert!(GameState::from_parts(
        grid,
        vec![pos(1, 1), pos(1, 0)],
        Direction::Up,
        Direction::Up,
        Some(pos(3, 10))
    )
    .is_none());
    // unusable board
    assert!(GameState::from_parts(
        GridConfig { width: 0, height: 5 },
        vec![pos(0, 1), pos(0, 0)],
        Direction::Up,
        Direction::Up,
        None
    )
    .is_none());
}

#[test]
fn direction_helpers() {
    assert_eq!(opposite_of(Direction::Up), Direction::Down);
    assert_eq!(opposite_of(Direction::Down), Direction::Up);
    assert_eq!(opposite_of(Direction::Left), Direction::Right);
    assert_eq!(opposite_of(Direction::Right), Direction::Left);
    assert_eq!(axis_of(Direction::Up), Axial::Vertical);
    assert_eq!(axis_of(Direction::Down), Axial::Vertical);
    assert_eq!(axis_of(Direction::Left), Axial::Horizontal);
    assert_eq!(axis_of(Direction::Right), Axial::Horizontal);
}
