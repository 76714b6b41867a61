//! The game state and what happens to it on each tick and each key press.
use vstd::prelude::*;
use crate::food::{board_full, free_cell, spawn_food};
use crate::grid::{in_bounds, opposite, Coord, Direction};
use crate::snake::{body_after, lemma_body_len_bound, outcome_of, Outcome, Snake, START_X, START_Y};

verus! {

/// Points for each piece of food eaten.
pub const FOOD_REWARD: u32 = 10;

/// Milliseconds between two steps of the snake.
pub const TICK_MS: u64 = 100;

/// A key press, or the request to close the window.
#[derive(Clone, Copy, Debug, PartialEq, Eq, Structural)]
pub enum Key {
    Up,
    Down,
    Left,
    Right,
    Escape,
    Q,
    Close,
    Other,
}

/// What the loop driving the game does after an input.
#[derive(Clone, Copy, Debug, PartialEq, Eq, Structural)]
pub enum Control {
    Continue,
    Exit,
}

/// The heading an arrow key asks for.
pub open spec fn key_heading(k: Key) -> Option<Direction> {
    match k {
        Key::Up => Some(Direction::Up),
        Key::Down => Some(Direction::Down),
        Key::Left => Some(Direction::Left),
        Key::Right => Some(Direction::Right),
        _ => None,
    }
}

/// The whole state of a game.
pub struct Game {
    pub snake: Snake,
    pub food: Coord,
    pub score: u32,
    /// Set once, when the snake dies or fills the board; never cleared.
    pub game_over: bool,
    /// Set when the snake filled the whole board.
    pub won: bool,
}

impl Game {
    /// The game's invariant: a well-formed snake, food on the board and off
    /// the snake while play goes on, and a score of at most one reward per
    /// segment grown.
    pub open spec fn wf(&self) -> bool {
        &&& self.snake.wf()
        &&& in_bounds(self.food)
        &&& !self.game_over ==> !self.snake.body@.contains(self.food)
        &&& self.score <= FOOD_REWARD * (self.snake.body@.len() - 1)
        &&& self.won ==> self.game_over
    }

    /// A new game: the starting snake, food on a random free cell, no score.
    pub fn new() -> (r: Game)
        ensures
            r.wf(),
            r.snake.body@ == seq![Coord { x: START_X, y: START_Y }],
            r.snake.direction == Direction::Right,
            r.score == 0,
            !r.game_over,
            !r.won,
    {
        let snake = Snake::new();
        let spot = spawn_food(&snake.body);
        assert(!snake.body@.contains(Coord { x: 0, y: 0 }));
        let food = match spot {
            Some(c) => c,
            None => Coord { x: 0, y: 0 },
        };
        Game { snake, food, score: 0, game_over: false, won: false }
    }

    /// A game in play with the given snake and food and no score; `None`
    /// unless the food lies on the board and off the snake.
    pub fn from_parts(snake: Snake, food: Coord) -> (r: Option<Game>)
        requires
            snake.wf(),
        ensures
            r is Some <==> free_cell(snake.body@, food),
            r matches Some(g) ==> g.wf() && g.snake == snake && g.food == food && g.score == 0
                && !g.game_over && !g.won,
    {
        if food.in_bounds() && !snake.contains(food) {
            Some(Game { snake, food, score: 0, game_over: false, won: false })
        } else {
            None
        }
    }

    /// Puts the food at `spot`, a free cell for the current snake; `None`
    /// means that none is left, and the game ends as won.
    pub fn place_food(&mut self, spot: Option<Coord>)
        requires
            old(self).snake.wf(),
            spot matches Some(c) ==> free_cell(old(self).snake.body@, c),
            spot is None ==> board_full(old(self).snake.body@),
        ensures
            final(self).snake == old(self).snake,
            final(self).score == old(self).score,
            match spot {
                Some(c) => final(self).food == c && final(self).game_over == old(self).game_over
                    && final(self).won == old(self).won,
                None => final(self).food == old(self).food && final(self).game_over
                    && final(self).won,
            },
    {
        match spot {
            Some(c) => {
                self.food = c;
            },
            None => {
                self.game_over = true;
                self.won = true;
            },
        }
    }

    /// One tick. A finished game stays as it is. Otherwise the snake moves in
    /// its heading: on death the game ends with snake, food and score as they
    /// were; on a plain move only the snake changes; on eating the score rises
    /// by `FOOD_REWARD` and the food moves to a free cell of the new body, or,
    /// with none left, the game ends as won.
    pub fn update(&mut self)
        requires
            old(self).wf(),
        ensures
            final(self).wf(),
            old(self).game_over ==> *final(self) == *old(self),
            !old(self).game_over ==> {
                let body = old(self).snake.body@;
                let d = old(self).snake.direction;
                let out = outcome_of(body, d, old(self).food);
                &&& final(self).snake.body@ == body_after(body, d, old(self).food)
                &&& final(self).snake.direction == d
                &&& final(self).snake.last_step == (if out == Outcome::Died {
                    old(self).snake.last_step
                } else {
                    d
                })
                &&& out == Outcome::Died ==> final(self).game_over && !final(self).won
                    && final(self).food == old(self).food && final(self).score
                    == old(self).score
                &&& out == Outcome::Moved ==> !final(self).game_over && final(self).food
                    == old(self).food && final(self).score == old(self).score
                &&& out == Outcome::Ate ==> final(self).score == old(self).score + FOOD_REWARD
                    && (if final(self).game_over {
                    final(self).won && board_full(final(self).snake.body@)
                        && final(self).food == old(self).food
                } else {
                    free_cell(final(self).snake.body@, final(self).food)
                })
            },
    {
        if self.game_over {
            return;
        }
        match self.snake.move_forward(self.food) {
            Outcome::Died => {
                self.game_over = true;
            },
            Outcome::Moved => {},
            Outcome::Ate => {
                proof {
                    lemma_body_len_bound(self.snake.body@);
                }
                self.score = self.score + FOOD_REWARD;
                let spot = spawn_food(&self.snake.body);
                self.place_food(spot);
            },
        }
    }

    /// A request for heading `d`: refused once the game is over, else
    /// decided by the snake's turning rule, against the heading of its last
    /// step. Only the pending heading can change.
    pub fn steer(&mut self, d: Direction) -> (accepted: bool)
        ensures
            accepted == (!old(self).game_over && d != opposite(old(self).snake.last_step)),
            final(self).snake.direction == (if accepted {
                d
            } else {
                old(self).snake.direction
            }),
            final(self).snake.last_step == old(self).snake.last_step,
            final(self).snake.body@ == old(self).snake.body@,
            final(self).food == old(self).food,
            final(self).score == old(self).score,
            final(self).game_over == old(self).game_over,
            final(self).won == old(self).won,
    {
        if self.game_over {
            false
        } else {
            self.snake.turn(d)
        }
    }

    /// Handles one input. Closing the window or Escape exits at any time, Q
    /// exits once the game is over; an arrow steers while the game goes on.
    pub fn handle_key(&mut self, key: Key) -> (r: Control)
        ensures
            r == Control::Exit <==> (key == Key::Close || key == Key::Escape || (key == Key::Q
                && old(self).game_over)),
            final(self).snake.direction == (match key_heading(key) {
                Some(d) => if !old(self).game_over && d != opposite(old(self).snake.last_step) {
                    d
                } else {
                    old(self).snake.direction
                },
                None => old(self).snake.direction,
            }),
            final(self).snake.last_step == old(self).snake.last_step,
            final(self).snake.body@ == old(self).snake.body@,
            final(self).food == old(self).food,
            final(self).score == old(self).score,
            final(self).game_over == old(self).game_over,
            final(self).won == old(self).won,
    {
        match key {
            Key::Close | Key::Escape => Control::Exit,
            Key::Q => if self.game_over {
                Control::Exit
            } else {
                Control::Continue
            },
            Key::Up => {
                self.steer(Direction::Up);
                Control::Continue
            },
            Key::Down => {
                self.steer(Direction::Down);
                Control::Continue
            },
            Key::Left => {
                self.steer(Direction::Left);
                Control::Continue
            },
            Key::Right => {
                self.steer(Direction::Right);
                Control::Continue
            },
            Key::Other => Control::Continue,
        }
    }

    /// Whether the snake should take its next step, `elapsed_ms` after the last.
    pub fn tick_due(&self, elapsed_ms: u64) -> (r: bool)
        ensures
            r == (!self.game_over && elapsed_ms >= TICK_MS),
    {
        !self.game_over && elapsed_ms >= TICK_MS
    }
}

} // verus!
