use snake::food::{count_free_cells, first_free_cell, food_candidate, nth_free_cell, spawn_food};
use snake::game::{Control, Game, Key, FOOD_REWARD, TICK_MS};
use snake::grid::{Coord, Direction, GRID_HEIGHT, GRID_WIDTH};
use snake::snake::{Outcome, Snake, START_X, START_Y};
use std::collections::VecDeque;

fn c(x: i32, y: i32) -> Coord {
    Coord { x, y }
}

fn snake_of(cells: &[(i32, i32)], d: Direction) -> Snake {
    let v: Vec<Coord> = cells.iter().map(|&(x, y)| c(x, y)).collect();
    Snake::from_cells(v, d).expect("well-formed body")
}

fn all_cells_except(skip: &[Coord]) -> Vec<Coord> {
    let mut v = Vec::new();
    for y in 0..GRID_HEIGHT {
        for x in 0..GRID_WIDTH {
            if !skip.contains(&c(x, y)) {
                v.push(c(x, y));
            }
        }
    }
    v
}

#[test]
fn five_ticks_right_from_centre() {
    let s = Snake::new();
    assert_eq!(s.segments(), vec![c(START_X, START_Y)]);
    assert_eq!((START_X, START_Y), (15, 10));
    let mut g = Game::from_parts(s, c(0, 0)).unwrap();
    for _ in 0..5 {
        g.update();
    }
    assert!(!g.game_over);
    assert_eq!(g.snake.len(), 1);
    assert_eq!(g.snake.head(), c(START_X + 5, START_Y));
    assert_eq!(g.score, 0);
}

#[test]
fn reverse_heading_is_rejected() {
    let s = snake_of(&[(10, 5), (9, 5), (8, 5)], Direction::Right);
    let mut g = Game::from_parts(s, c(0, 0)).unwrap();
    assert!(!g.steer(Direction::Left));
    assert_eq!(g.snake.direction, Direction::Right);
    g.update();
    assert!(!g.game_over);
    assert_eq!(g.snake.segments(), vec![c(11, 5), c(10, 5), c(9, 5)]);
}

#[test]
fn food_ahead_is_eaten_and_respawned_off_body() {
    let s = snake_of(&[(10, 5), (9, 5)], Direction::Right);
    let mut g = Game::from_parts(s, c(11, 5)).unwrap();
    g.update();
    assert!(!g.game_over);
    assert_eq!(g.snake.len(), 3);
    assert_eq!(g.snake.head(), c(11, 5));
    assert_eq!(g.score, FOOD_REWARD);
    assert_eq!(g.score, 10);
    assert!(g.food.in_bounds());
    assert!(!g.snake.contains(g.food));
}

#[test]
fn leaving_the_board_is_death() {
    let mut s = snake_of(&[(29, 0)], Direction::Right);
    let before = s.segments();
    assert_eq!(s.move_forward(c(0, 0)), Outcome::Died);
    assert_eq!(s.segments(), before);
    let mut up = snake_of(&[(4, 0)], Direction::Up);
    assert_eq!(up.move_forward(c(0, 5)), Outcome::Died);
    let mut left = snake_of(&[(0, 7)], Direction::Left);
    assert_eq!(left.move_forward(c(0, 5)), Outcome::Died);
    let mut down = snake_of(&[(3, 19)], Direction::Down);
    assert_eq!(down.move_forward(c(0, 5)), Outcome::Died);
}

#[test]
fn running_into_the_body_is_death() {
    // head at (5,5) heading Down into (5,6), a middle segment
    let mut s = snake_of(&[(5, 5), (6, 5), (6, 6), (5, 6), (4, 6)], Direction::Down);
    assert_eq!(s.move_forward(c(0, 0)), Outcome::Died);
    assert_eq!(s.len(), 5);
}

#[test]
fn following_the_vacating_tail_is_allowed() {
    // a square: the head steps into the cell the tail leaves
    let mut s = snake_of(&[(5, 5), (6, 5), (6, 6), (5, 6)], Direction::Down);
    assert_eq!(s.move_forward(c(0, 0)), Outcome::Moved);
    assert_eq!(s.segments(), vec![c(5, 6), c(5, 5), c(6, 5), c(6, 6)]);
}

#[test]
fn tail_blocks_when_eating() {
    let mut s = snake_of(&[(5, 5), (6, 5), (6, 6), (5, 6)], Direction::Down);
    assert_eq!(s.move_forward(c(5, 6)), Outcome::Died);
    assert_eq!(s.len(), 4);
}

#[test]
fn length_grows_only_when_eating() {
    let mut s = Snake::new();
    let foods = [c(16, 10), c(0, 0), c(18, 10), c(0, 0), c(0, 0)];
    let mut expected = 1;
    for f in foods.iter() {
        let r = s.move_forward(*f);
        if r == Outcome::Ate {
            expected += 1;
        }
        assert_ne!(r, Outcome::Died);
        assert_eq!(s.len(), expected);
    }
    assert_eq!(s.len(), 3);
    assert_eq!(s.head(), c(20, 10));
}

#[test]
fn turning_rules() {
    let mut s = Snake::new();
    assert!(!s.turn(Direction::Left));
    assert!(s.turn(Direction::Right));
    assert!(s.turn(Direction::Up));
    assert_eq!(s.direction, Direction::Up);
    assert_eq!(s.move_forward(c(0, 0)), Outcome::Moved);
    assert_eq!(s.last_step, Direction::Up);
    assert!(!s.turn(Direction::Down));
    assert!(s.turn(Direction::Left));
    assert_eq!(s.direction, Direction::Left);
    assert_eq!(s.move_forward(c(0, 0)), Outcome::Moved);
    assert!(!s.turn(Direction::Right));
    assert_eq!(s.direction, Direction::Left);
    assert_eq!(Direction::Up.opposite(), Direction::Down);
}

#[test]
fn two_requests_cannot_reverse_onto_the_neck() {
    let mut g = Game::from_parts(snake_of(&[(10, 5), (9, 5), (8, 5)], Direction::Right), c(0, 0))
        .unwrap();
    assert!(g.steer(Direction::Up));
    assert!(!g.steer(Direction::Left));
    assert_eq!(g.snake.direction, Direction::Up);
    g.update();
    assert!(!g.game_over);
    assert_eq!(g.snake.segments(), vec![c(10, 4), c(10, 5), c(9, 5)]);
    assert_eq!(g.snake.last_step, Direction::Up);
}

#[test]
fn latest_legal_request_wins() {
    let mut g = Game::from_parts(snake_of(&[(10, 5), (9, 5), (8, 5)], Direction::Right), c(0, 0))
        .unwrap();
    assert!(g.steer(Direction::Up));
    assert!(g.steer(Direction::Down));
    assert_eq!(g.snake.direction, Direction::Down);
    g.update();
    assert_eq!(g.snake.head(), c(10, 6));
}

#[test]
fn finished_game_does_not_change() {
    let s = snake_of(&[(29, 3)], Direction::Right);
    let mut g = Game::from_parts(s, c(1, 1)).unwrap();
    g.update();
    assert!(g.game_over);
    assert!(!g.won);
    for _ in 0..3 {
        g.update();
        assert_eq!(g.snake.segments(), vec![c(29, 3)]);
        assert_eq!(g.food, c(1, 1));
        assert_eq!(g.score, 0);
    }
    assert!(!g.steer(Direction::Up));
    assert_eq!(g.snake.direction, Direction::Right);
}

#[test]
fn filling_the_board_wins() {
    let mut cells = vec![c(28, 19)];
    cells.extend(all_cells_except(&[c(28, 19), c(29, 19)]));
    let s = Snake::from_cells(cells, Direction::Right).unwrap();
    let mut g = Game::from_parts(s, c(29, 19)).unwrap();
    g.update();
    assert_eq!(g.snake.len(), 600);
    assert!(g.game_over);
    assert!(g.won);
    assert_eq!(g.score, 10);
}

#[test]
fn from_cells_rejects_bad_bodies() {
    assert!(Snake::from_cells(vec![], Direction::Up).is_none());
    assert!(Snake::from_cells(vec![c(30, 0)], Direction::Up).is_none());
    assert!(Snake::from_cells(vec![c(0, -1)], Direction::Up).is_none());
    assert!(Snake::from_cells(vec![c(1, 1), c(2, 1), c(1, 1)], Direction::Up).is_none());
    assert!(Snake::from_cells(vec![c(1, 1), c(2, 1)], Direction::Up).is_some());
}

#[test]
fn from_parts_rejects_bad_food() {
    let s = snake_of(&[(1, 1), (2, 1)], Direction::Left);
    assert!(Game::from_parts(s, c(2, 1)).is_none());
    let s = snake_of(&[(1, 1)], Direction::Left);
    assert!(Game::from_parts(s, c(-1, 0)).is_none());
}

#[test]
fn new_game_starts_clean() {
    let g = Game::new();
    assert_eq!(g.snake.segments(), vec![c(15, 10)]);
    assert_eq!(g.snake.direction, Direction::Right);
    assert_eq!(g.score, 0);
    assert!(!g.game_over);
    assert!(g.food.in_bounds());
    assert_ne!(g.food, c(15, 10));
}

#[test]
fn food_candidates() {
    let mut body = VecDeque::new();
    body.push_back(c(3, 4));
    assert_eq!(food_candidate(&body, 3, 4), None);
    assert_eq!(food_candidate(&body, 30, 4), None);
    assert_eq!(food_candidate(&body, 3, 20), None);
    assert_eq!(food_candidate(&body, 2, 4), Some(c(2, 4)));
}

#[test]
fn first_free_cell_scans_row_major() {
    let mut body = VecDeque::new();
    body.push_back(c(0, 0));
    body.push_back(c(1, 0));
    assert_eq!(first_free_cell(&body), Some(c(2, 0)));
    let full: VecDeque<Coord> = all_cells_except(&[]).into_iter().collect();
    assert_eq!(first_free_cell(&full), None);
    assert_eq!(spawn_food(&full), None);
}

#[test]
fn spawn_avoids_body_on_crowded_board() {
    let body: VecDeque<Coord> = all_cells_except(&[c(7, 13)]).into_iter().collect();
    for _ in 0..5 {
        assert_eq!(spawn_food(&body), Some(c(7, 13)));
    }
    let body: VecDeque<Coord> = all_cells_except(&[c(7, 13), c(29, 0)]).into_iter().collect();
    for _ in 0..20 {
        let f = spawn_food(&body).unwrap();
        assert!(f == c(7, 13) || f == c(29, 0));
    }
}

#[test]
fn keys_and_ticks() {
    let mut g = Game::from_parts(Snake::new(), c(0, 0)).unwrap();
    assert_eq!(g.handle_key(Key::Q), Control::Continue);
    assert_eq!(g.handle_key(Key::Up), Control::Continue);
    assert_eq!(g.snake.direction, Direction::Up);
    assert_eq!(g.handle_key(Key::Left), Control::Continue);
    assert_eq!(g.snake.direction, Direction::Up);
    assert_eq!(g.handle_key(Key::Down), Control::Continue);
    assert_eq!(g.snake.direction, Direction::Down);
    assert_eq!(g.handle_key(Key::Up), Control::Continue);
    assert_eq!(g.handle_key(Key::Other), Control::Continue);
    assert_eq!(g.handle_key(Key::Escape), Control::Exit);
    assert_eq!(g.handle_key(Key::Close), Control::Exit);
    assert!(g.tick_due(TICK_MS));
    assert!(!g.tick_due(99));
    g.game_over = true;
    assert_eq!(g.handle_key(Key::Q), Control::Exit);
    assert_eq!(g.handle_key(Key::Left), Control::Continue);
    assert_eq!(g.snake.direction, Direction::Up);
    assert!(!g.tick_due(1000));
}

#[test]
fn cell_geometry() {
    assert_eq!(c(3, 2).pixel_origin(), (60, 40));
    assert!(c(29, 19).in_bounds());
    assert!(!c(29, 20).in_bounds());
    assert_eq!(c(5, 5).step(Direction::Up), c(5, 4));
    assert_eq!(c(5, 5).step(Direction::Left), c(4, 5));
}

#[test]
fn counting_and_picking_free_cells() {
    let mut body = VecDeque::new();
    body.push_back(c(0, 0));
    body.push_back(c(2, 0));
    assert_eq!(count_free_cells(&body), 598);
    assert_eq!(nth_free_cell(&body, 0), c(1, 0));
    assert_eq!(nth_free_cell(&body, 1), c(3, 0));
    assert_eq!(nth_free_cell(&body, 28), c(0, 1));
    assert_eq!(nth_free_cell(&body, 597), c(29, 19));
    let crowded: VecDeque<Coord> = all_cells_except(&[c(4, 4), c(20, 9)]).into_iter().collect();
    assert_eq!(count_free_cells(&crowded), 2);
    assert_eq!(nth_free_cell(&crowded, 0), c(4, 4));
    assert_eq!(nth_free_cell(&crowded, 1), c(20, 9));
    let full: VecDeque<Coord> = all_cells_except(&[]).into_iter().collect();
    assert_eq!(count_free_cells(&full), 0);
}

#[test]
fn crowded_board_spawn_reaches_every_free_cell() {
    let body: VecDeque<Coord> = all_cells_except(&[c(0, 0), c(29, 19)]).into_iter().collect();
    let mut seen_first = false;
    let mut seen_last = false;
    for _ in 0..200 {
        let f = spawn_food(&body).unwrap();
        assert!(f == c(0, 0) || f == c(29, 19));
        seen_first |= f == c(0, 0);
        seen_last |= f == c(29, 19);
    }
    assert!(seen_first && seen_last);
}

#[test]
fn length_counts_meals_over_many_updates() {
    let mut g = Game::from_parts(Snake::new(), c(17, 10)).unwrap();
    let start_len = g.snake.len();
    let mut meals = 0;
    for _ in 0..8 {
        let food = g.food;
        let next = g.snake.head().step(g.snake.direction);
        g.update();
        assert!(!g.game_over);
        if next == food {
            meals += 1;
        }
        assert_eq!(g.snake.len(), start_len + meals);
        assert_eq!(g.score, 10 * meals as u32);
        assert!(!g.snake.contains(g.food));
    }
    assert!(meals >= 1);
}
