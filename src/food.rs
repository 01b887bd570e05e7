//! Placing food on a free cell inside the wall ring.
use vstd::prelude::*;
use rand::Rng;
use rand::rngs::ThreadRng;
use crate::grid::{Cell, HEIGHT, WIDTH, in_interior};
use crate::snake::Snake;

verus! {

/// How many random cells are drawn before the free cells are searched in order.
pub const MAX_FOOD_DRAWS: u32 = 64;

#[verifier::external_type_specification]
#[verifier::external_body]
pub struct ExThreadRng(rand::rngs::ThreadRng);

/// Relies on rand::thread_rng: it hands out the thread's generator, of whose
/// state nothing is known.
pub assume_specification[ rand::thread_rng ]() -> rand::rngs::ThreadRng;

/// Relies on rand::Rng::gen_range: it returns a value of the half-open range
/// `lo..hi`, and panics only when that range is empty.
#[verifier::external_body]
fn gen_coord(rng: &mut ThreadRng, lo: u16, hi: u16) -> (r: u16)
    requires
        lo < hi,
    ensures
        lo <= r < hi,
{
    rng.gen_range(lo..hi)
}

/// A cell where food may go: inside the wall ring and off the body.
pub open spec fn open_cell(body: Seq<Cell>, c: Cell) -> bool {
    in_interior(c) && !body.contains(c)
}

/// Some cell is free for food.
pub open spec fn has_open_cell(body: Seq<Cell>) -> bool {
    exists|c: Cell| #[trigger] open_cell(body, c)
}

/// Whether food may be put on `c`.
pub fn is_open_cell(body: &Vec<Cell>, c: Cell) -> (r: bool)
    ensures
        r == open_cell(body@, c),
{
    if c.0 < 1 || c.0 >= WIDTH - 1 || c.1 < 1 || c.1 >= HEIGHT - 1 {
        return false;
    }
    let mut i: usize = 0;
    while i < body.len()
        invariant
            0 <= i <= body@.len(),
            forall|j: int| 0 <= j < i ==> body@[j] != c,
        decreases body@.len() - i,
    {
        let b = body[i];
        if b.0 == c.0 && b.1 == c.1 {
            proof {
                assert(body@[i as int] == c);
            }
            return false;
        }
        i = i + 1;
    }
    proof {
        assert(!body@.contains(c));
    }
    true
}

/// The first free cell in row order (top row first, left to right), if any.
pub fn first_open_cell(body: &Vec<Cell>) -> (r: Option<Cell>)
    ensures
        r.is_some() <==> has_open_cell(body@),
        r.is_some() ==> open_cell(body@, r.unwrap()),
{
    let mut y: u16 = 1;
    while y < HEIGHT - 1
        invariant
            1 <= y <= HEIGHT - 1,
            forall|c: Cell| in_interior(c) && c.1 < y ==> !#[trigger] open_cell(body@, c),
        decreases HEIGHT - 1 - y,
    {
        let mut x: u16 = 1;
        while x < WIDTH - 1
            invariant
                1 <= y < HEIGHT - 1,
                1 <= x <= WIDTH - 1,
                forall|c: Cell| in_interior(c) && (c.1 < y || (c.1 == y && c.0 < x))
                    ==> !#[trigger] open_cell(body@, c),
            decreases WIDTH - 1 - x,
        {
            if is_open_cell(body, (x, y)) {
                return Some((x, y));
            }
            x = x + 1;
        }
        y = y + 1;
    }
    proof {
        assert forall|c: Cell| !#[trigger] open_cell(body@, c) by {
            if in_interior(c) {
                assert(c.1 < y);
            }
        }
    }
    None
}

/// A free cell for food: random cells inside the wall ring are drawn until one
/// is off the body, and after `MAX_FOOD_DRAWS` draws the free cells are
/// searched in order. `None` exactly when the body covers the whole interior.
pub fn generate_food(snake: &Snake) -> (r: Option<Cell>)
    ensures
        r.is_some() <==> has_open_cell(snake.body@),
        r.is_some() ==> open_cell(snake.body@, r.unwrap()),
{
    let mut rng = rand::thread_rng();
    let mut tries: u32 = 0;
    while tries < MAX_FOOD_DRAWS
        invariant
            tries <= MAX_FOOD_DRAWS,
        decreases MAX_FOOD_DRAWS - tries,
    {
        let x = gen_coord(&mut rng, 1, WIDTH - 1);
        let y = gen_coord(&mut rng, 1, HEIGHT - 1);
        if is_open_cell(&snake.body, (x, y)) {
            return Some((x, y));
        }
        tries = tries + 1;
    }
    first_open_cell(&snake.body)
}

} // verus!
