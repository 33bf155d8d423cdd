use snake_core::{spawn_food, Direction, GameState, GridConfig, Position};

fn pos(x: i32, y: i32) -> Position {
    Position { x, y }
}

#[test]
fn spawn_never_returns_an_occupied_cell() {
    // A 28 by 28 board with every cell occupied except the origin: the only
    // cell a spawn may ever return is (0, 0), however many times it draws.
    let grid = GridConfig::new(28, 28);
    let mut occupied: Vec<Position> = Vec::new();
    for x in 0..28 {
        for y in 0..28 {
            if !(x == 0 && y == 0) {
                occupied.push(pos(x, y));
            }
        }
    }
    for _ in 0..20 {
        assert_eq!(spawn_food(&occupied, grid), Some(pos(0, 0)));
    }
}

#[test]
fn spawn_on_full_board_returns_none() {
    let grid = GridConfig::new(2, 3);
    let mut occupied: Vec<Position> = Vec::new();
    for x in 0..2 {
        for y in 0..3 {
            occupied.push(pos(x, y));
        }
    }
    assert_eq!(spawn_food(&occupied, grid), None);
}

#[test]
fn spawn_stays_on_the_board() {
    let grid = GridConfig::new(5, 5);
    let occupied: Vec<Position> = Vec::new();
    for _ in 0..50 {
        let p = spawn_food(&occupied, grid).unwrap();
        assert!(0 <= p.x && p.x < 5);
        assert!(0 <= p.y && p.y < 5);
    }
}

#[test]
fn food_tick_places_once_and_then_holds() {
    let mut game = GameState::new(GridConfig::new(10, 10));
    let placed = game.on_food_tick().unwrap();
    assert!(0 <= placed.x && placed.x < 10);
    assert!(0 <= placed.y && placed.y < 10);
    for s in game.segments() {
        assert_ne!(*s, placed);
    }
    assert_eq!(game.current_food_position(), Some(placed));
    // food already exists: the next food tick does not fire
    assert_eq!(game.on_food_tick(), None);
    assert_eq!(game.current_food_position(), Some(placed));
}

#[test]
fn eating_clears_food_and_next_tick_can_respawn() {
    let grid = GridConfig::new(10, 10);
    let segs = vec![pos(4, 4), pos(4, 3)];
    let mut game =
        GameState::from_parts(grid, segs, Direction::Up, Direction::Up, Some(pos(4, 5))).unwrap();
    let r = game.on_movement_tick();
    assert!(r.ate_food);
    assert_eq!(game.current_food_position(), None);
    let placed = game.on_food_tick().unwrap();
    for s in game.segments() {
        assert_ne!(*s, placed);
    }
}
