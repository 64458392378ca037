use snake_core::board::{step, Direction, Pos};
use snake_core::game::{
    check_setup, first_free_cell, food_candidate, occupies, CellChange, CellState, GameState,
    Outcome, SetupError,
};

fn p(x: u32, y: u32) -> Pos {
    Pos { x, y }
}

fn start_body() -> Vec<Pos> {
    vec![p(1, 1), p(2, 1), p(3, 1)]
}

#[test]
fn plain_move_drops_tail() {
    let mut g = GameState::with_food(5, 5, start_body(), Direction::Right, p(0, 4)).unwrap();
    let s = g.advance();
    assert_eq!(s.outcome, Outcome::Continue);
    assert_eq!(g.body, vec![p(2, 1), p(3, 1), p(4, 1)]);
    assert_eq!(g.food, p(0, 4));
    assert_eq!(
        s.changes,
        vec![
            CellChange { pos: p(4, 1), state: CellState::SnakeBody },
            CellChange { pos: p(1, 1), state: CellState::Empty },
        ]
    );
}

#[test]
fn eating_keeps_tail_and_moves_food() {
    let mut g = GameState::with_food(5, 5, start_body(), Direction::Right, p(4, 1)).unwrap();
    let s = g.advance();
    assert_eq!(s.outcome, Outcome::Continue);
    assert_eq!(g.body, vec![p(1, 1), p(2, 1), p(3, 1), p(4, 1)]);
    assert!(!g.body.contains(&g.food));
    assert!(g.food.x < 5 && g.food.y < 5);
    assert_eq!(s.changes.len(), 2);
    assert_eq!(s.changes[0], CellChange { pos: p(4, 1), state: CellState::SnakeBody });
    assert_eq!(s.changes[1], CellChange { pos: g.food, state: CellState::Food });
}

#[test]
fn running_into_body_is_death() {
    let body = vec![p(2, 1), p(2, 0), p(1, 0), p(1, 1)];
    let mut g = GameState::with_food(5, 5, body.clone(), Direction::Right, p(4, 4)).unwrap();
    let s = g.advance();
    assert_eq!(s.outcome, Outcome::Death);
    assert_eq!(g.body, body);
    assert_eq!(g.food, p(4, 4));
    assert!(s.changes.is_empty());
}

#[test]
fn reversing_is_death() {
    let mut g = GameState::with_food(5, 5, start_body(), Direction::Left, p(0, 4)).unwrap();
    assert_eq!(g.advance().outcome, Outcome::Death);
    assert_eq!(g.body, start_body());
}

#[test]
fn almost_full_board_wins() {
    // 2 by 2 board, three cells taken: the next tick wins, even into the body.
    let body = vec![p(0, 0), p(1, 0), p(1, 1)];
    let mut g = GameState::with_food(2, 2, body.clone(), Direction::Up, p(0, 1)).unwrap();
    let s = g.advance();
    assert_eq!(s.outcome, Outcome::Victory);
    assert_eq!(g.body, body);
    assert_eq!(s.changes, vec![CellChange { pos: p(1, 0), state: CellState::SnakeBody }]);
}

#[test]
fn growth_up_to_victory() {
    let mut g = GameState::with_food(2, 2, vec![p(0, 0), p(1, 0)], Direction::Down, p(1, 1)).unwrap();
    let s = g.advance();
    assert_eq!(s.outcome, Outcome::Continue);
    assert_eq!(g.body, vec![p(0, 0), p(1, 0), p(1, 1)]);
    // the only free cell is left for the food
    assert_eq!(g.food, p(0, 1));
    assert_eq!(g.advance().outcome, Outcome::Victory);
}

#[test]
fn moves_wrap_at_edges() {
    assert_eq!(step(p(4, 2), Direction::Right, 5, 5), p(0, 2));
    assert_eq!(step(p(0, 2), Direction::Left, 5, 5), p(4, 2));
    assert_eq!(step(p(3, 0), Direction::Up, 5, 5), p(3, 4));
    assert_eq!(step(p(3, 4), Direction::Down, 5, 5), p(3, 0));
    assert_eq!(step(p(2, 2), Direction::Down, 5, 5), p(2, 3));
}

#[test]
fn head_wraps_during_tick() {
    let body = vec![p(2, 0), p(3, 0), p(4, 0)];
    let mut g = GameState::with_food(5, 5, body, Direction::Right, p(2, 2)).unwrap();
    assert_eq!(g.advance().outcome, Outcome::Continue);
    assert_eq!(g.body, vec![p(3, 0), p(4, 0), p(0, 0)]);
    g.dir = Direction::Up;
    assert_eq!(g.advance().outcome, Outcome::Continue);
    assert_eq!(g.body, vec![p(4, 0), p(0, 0), p(0, 4)]);
}

#[test]
fn body_stays_on_board_over_many_ticks() {
    let mut g = GameState::new(5, 5, start_body(), Direction::Right).unwrap();
    let turns = [Direction::Down, Direction::Left, Direction::Down, Direction::Right];
    for i in 0..60 {
        if i % 7 == 3 {
            g.dir = turns[(i / 7) % 4];
        }
        let len = g.body.len();
        let head = step(*g.body.last().unwrap(), g.dir, 5, 5);
        let food = g.food;
        let s = g.advance();
        assert!(g.body.iter().all(|c| c.x < 5 && c.y < 5));
        assert!(!g.body.contains(&g.food));
        if s.outcome != Outcome::Continue {
            break;
        }
        assert_eq!(g.body.len(), if head == food { len + 1 } else { len });
    }
}

#[test]
fn new_places_food_off_the_snake() {
    for _ in 0..20 {
        let g = GameState::new(5, 5, start_body(), Direction::Right).unwrap();
        assert!(g.food.x < 5 && g.food.y < 5);
        assert!(!g.body.contains(&g.food));
        assert_eq!(g.body, start_body());
    }
}

#[test]
fn setup_errors() {
    assert_eq!(check_setup(1, 5, &start_body()), Some(SetupError::BoardDimensions));
    assert_eq!(check_setup(5, 5, &vec![]), Some(SetupError::EmptyBody));
    assert_eq!(check_setup(5, 5, &vec![p(1, 1), p(5, 1)]), Some(SetupError::BodyOffBoard));
    assert_eq!(check_setup(5, 5, &vec![p(1, 1), p(2, 1), p(1, 1)]), Some(SetupError::BodyOverlaps));
    assert_eq!(
        check_setup(2, 2, &vec![p(0, 0), p(1, 0), p(1, 1), p(0, 1)]),
        Some(SetupError::BoardTooSmall)
    );
    assert_eq!(check_setup(5, 5, &start_body()), None);
    assert_eq!(
        GameState::with_food(5, 5, start_body(), Direction::Up, p(2, 1)).err(),
        Some(SetupError::FoodMisplaced)
    );
    assert_eq!(
        GameState::with_food(5, 5, start_body(), Direction::Up, p(0, 5)).err(),
        Some(SetupError::FoodMisplaced)
    );
    assert_eq!(
        GameState::new(5, 5, vec![p(1, 1), p(1, 1)], Direction::Up).err(),
        Some(SetupError::BodyOverlaps)
    );
}

#[test]
fn food_helpers() {
    assert_eq!(food_candidate(7, 13, 5, 5), p(2, 3));
    assert_eq!(food_candidate(4, 0, 5, 5), p(4, 0));
    assert_eq!(first_free_cell(&vec![p(0, 0), p(1, 0), p(3, 0)], 4, 2), p(2, 0));
    assert_eq!(first_free_cell(&vec![p(0, 0), p(1, 0)], 2, 2), p(0, 1));
    assert!(occupies(&start_body(), p(2, 1)));
    assert!(!occupies(&start_body(), p(2, 2)));
}
