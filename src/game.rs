//! One game session: the snake, the food and the score, advanced one tick at
//! a time from the key read during that tick.
use vstd::prelude::*;
use crate::grid::{Cell, Direction, HEIGHT, WIDTH};
use crate::snake::{Snake, advanced, colliding};
use crate::food::{generate_food, has_open_cell, open_cell};

verus! {

/// A key press as the game sees it.
#[derive(Clone, Copy, Debug, PartialEq, Eq, Structural)]
pub enum Key {
    Up,
    Down,
    Left,
    Right,
    Quit,
    Other,
}

/// What a tick ends in.
#[derive(Clone, Copy, Debug, PartialEq, Eq, Structural)]
pub enum Outcome {
    /// The game goes on.
    Playing,
    /// The quit key was pressed; nothing moved.
    Quit,
    /// The head hit the wall ring or the body.
    Crashed,
}

/// A running game. `food` is `None` only once the body covers the whole
/// interior.
pub struct Game {
    pub snake: Snake,
    pub food: Option<Cell>,
    pub score: u64,
}

/// What to draw at one cell.
#[derive(Clone, Copy, Debug, PartialEq, Eq, Structural)]
pub enum Glyph {
    /// An empty cell.
    Blank,
    /// The food.
    Food,
    /// A segment of the snake.
    Body,
}

/// The input wait of a tick in milliseconds for a snake of `len` cells:
/// `200 - len`, but never below one.
pub open spec fn wait_ms(len: int) -> int {
    if len >= 199 { 1 } else { 200 - len }
}

/// How long a tick waits for a key, in milliseconds: the longer the snake,
/// the shorter the wait, and never less than one.
pub fn poll_timeout_ms(len: usize) -> (r: u64)
    ensures
        r == wait_ms(len as int),
{
    if len >= 199 {
        1
    } else {
        200 - len as u64
    }
}

/// The heading after reading `key`: an arrow key sets it, anything else keeps it.
pub open spec fn heading_after(d: Direction, key: Option<Key>) -> Direction {
    match key {
        Some(Key::Up) => Direction::Up,
        Some(Key::Down) => Direction::Down,
        Some(Key::Left) => Direction::Left,
        Some(Key::Right) => Direction::Right,
        _ => d,
    }
}

/// The head of `body` is on the food.
pub open spec fn eats(food: Option<Cell>, body: Seq<Cell>) -> bool {
    food == Some(body[0])
}

/// The cells redrawn at the start of a tick, in order: the cell that the
/// tail left is cleared, then the food and every body cell are drawn.
pub open spec fn frame_of(g: Game) -> Seq<(Cell, Glyph)> {
    seq![(g.snake.grow_space, Glyph::Blank)]
        + (if g.food.is_some() { seq![(g.food.unwrap(), Glyph::Food)] } else { Seq::empty() })
        + g.snake.body@.map_values(|c: Cell| (c, Glyph::Body))
}

impl Game {
    /// The snake is well formed and the food lies inside the walls, off the body.
    pub open spec fn wf(&self) -> bool {
        &&& self.snake.wf()
        &&& self.food.is_some() ==> open_cell(self.snake.body@, self.food.unwrap())
    }

    /// A new game: a one-cell snake at the centre heading right, food on a
    /// free cell and a score of zero.
    pub fn new() -> (g: Game)
        ensures
            g.wf(),
            g.snake.body@ == seq![(WIDTH / 2, HEIGHT / 2)],
            g.snake.direction == Direction::Right,
            g.snake.grow_space == ((WIDTH / 2 + 1) as u16, (HEIGHT / 2 + 1) as u16),
            g.food.is_some(),
            g.score == 0,
    {
        let snake = Snake::new();
        proof {
            assert(!snake.body@.contains((1u16, 1u16))) by {
                if snake.body@.contains((1u16, 1u16)) {
                    assert(snake.body@[0] == (1u16, 1u16));
                }
            }
            assert(open_cell(snake.body@, (1u16, 1u16)));
        }
        let food = generate_food(&snake);
        Game { snake, food, score: 0 }
    }

    /// The cells to redraw before the input wait of a tick.
    pub fn frame(&self) -> (r: Vec<(Cell, Glyph)>)
        ensures
            r@ == frame_of(*self),
    {
        let mut r: Vec<(Cell, Glyph)> = Vec::new();
        r.push((self.snake.grow_space, Glyph::Blank));
        match self.food {
            Some(f) => r.push((f, Glyph::Food)),
            None => {},
        }
        let ghost start = r@;
        let mut i: usize = 0;
        while i < self.snake.body.len()
            invariant
                0 <= i <= self.snake.body@.len(),
                r@ == start + self.snake.body@.subrange(0, i as int).map_values(|c: Cell| (c, Glyph::Body)),
            decreases self.snake.body@.len() - i,
        {
            r.push((self.snake.body[i], Glyph::Body));
            proof {
                assert(self.snake.body@.subrange(0, i + 1).map_values(|c: Cell| (c, Glyph::Body))
                    =~= self.snake.body@.subrange(0, i as int).map_values(|c: Cell| (c, Glyph::Body))
                        .push((self.snake.body@[i as int], Glyph::Body)));
            }
            i = i + 1;
        }
        proof {
            assert(self.snake.body@.subrange(0, i as int) =~= self.snake.body@);
            assert(r@ =~= frame_of(*self));
        }
        r
    }

    /// Plays one tick with the key read during it, if any. The quit key ends
    /// the game at once. Otherwise the heading is updated, the snake moves; if
    /// the head reaches the food the snake grows, the score goes up by one and
    /// new food is placed; then the collision rules decide the outcome.
    pub fn tick(&mut self, key: Option<Key>) -> (r: Outcome)
        requires
            old(self).wf(),
            old(self).score < u64::MAX,
        ensures
            final(self).wf(),
            final(self).score >= old(self).score,
            key == Some(Key::Quit) ==> r == Outcome::Quit && *final(self) == *old(self),
            key != Some(Key::Quit) ==> ({
                let d = heading_after(old(self).snake.direction, key);
                let moved = advanced(old(self).snake.body@, d);
                &&& final(self).snake.direction == d
                &&& final(self).snake.grow_space == old(self).snake.body@.last()
                &&& eats(old(self).food, moved) ==> {
                    &&& final(self).snake.body@ == moved.push(old(self).snake.body@.last())
                    &&& final(self).score == old(self).score + 1
                    &&& final(self).food.is_some() <==> has_open_cell(final(self).snake.body@)
                }
                &&& !eats(old(self).food, moved) ==> {
                    &&& final(self).snake.body@ == moved
                    &&& final(self).score == old(self).score
                    &&& final(self).food == old(self).food
                }
                &&& r == if colliding(final(self).snake.body@) {
                    Outcome::Crashed
                } else {
                    Outcome::Playing
                }
            }),
    {
        match key {
            Some(Key::Quit) => {
                return Outcome::Quit;
            },
            Some(Key::Up) => self.snake.set_direction(Direction::Up),
            Some(Key::Down) => self.snake.set_direction(Direction::Down),
            Some(Key::Left) => self.snake.set_direction(Direction::Left),
            Some(Key::Right) => self.snake.set_direction(Direction::Right),
            _ => {},
        }
        let ghost before = self.snake.body@;
        self.snake.move_forward();
        let head = self.snake.body[0];
        let ate = match self.food {
            Some(f) => f.0 == head.0 && f.1 == head.1,
            None => false,
        };
        if ate {
            self.snake.grow();
            self.score = self.score + 1;
            self.food = generate_food(&self.snake);
        } else {
            proof {
                let f = self.food.unwrap();
                if self.food.is_some() && self.snake.body@.contains(f) {
                    let i = choose|i: int| 0 <= i < self.snake.body@.len() && self.snake.body@[i] == f;
                    assert(before[i - 1] == f);
                }
            }
        }
        if self.snake.check_collision() {
            Outcome::Crashed
        } else {
            Outcome::Playing
        }
    }
}

} // verus!
