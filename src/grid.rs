//! The playfield: cells, headings, the wall ring and single steps.
use vstd::prelude::*;

verus! {

/// Width of the playfield in cells, walls included.
pub const WIDTH: u16 = 40;

/// Height of the playfield in cells, walls included.
pub const HEIGHT: u16 = 20;

/// A grid coordinate `(x, y)`; the origin is the top-left corner.
pub type Cell = (u16, u16);

/// The heading of the snake.
#[derive(Clone, Copy, Debug, PartialEq, Eq, Structural)]
pub enum Direction {
    Up,
    Down,
    Left,
    Right,
}

/// The cell one unit away from `c` in direction `d`. A coordinate that would
/// leave the range of `u16` stays at its bound instead.
pub open spec fn step(c: Cell, d: Direction) -> Cell {
    match d {
        Direction::Up => (c.0, if c.1 == 0 { 0u16 } else { (c.1 - 1) as u16 }),
        Direction::Down => (c.0, if c.1 == u16::MAX { u16::MAX } else { (c.1 + 1) as u16 }),
        Direction::Left => (if c.0 == 0 { 0u16 } else { (c.0 - 1) as u16 }, c.1),
        Direction::Right => (if c.0 == u16::MAX { u16::MAX } else { (c.0 + 1) as u16 }, c.1),
    }
}

/// Whether a step from `c` towards `d` would leave the range of `u16`.
pub open spec fn step_saturates(c: Cell, d: Direction) -> bool {
    match d {
        Direction::Up => c.1 == 0,
        Direction::Down => c.1 == u16::MAX,
        Direction::Left => c.0 == 0,
        Direction::Right => c.0 == u16::MAX,
    }
}

/// Two cells that share a side.
pub open spec fn adjacent(a: Cell, b: Cell) -> bool {
    (a.0 == b.0 && (a.1 + 1 == b.1 || b.1 + 1 == a.1))
    || (a.1 == b.1 && (a.0 + 1 == b.0 || b.0 + 1 == a.0))
}

/// A cell on the wall ring, or beyond it.
pub open spec fn on_wall(c: Cell) -> bool {
    c.0 == 0 || c.0 >= WIDTH - 1 || c.1 == 0 || c.1 >= HEIGHT - 1
}

/// A cell strictly inside the wall ring.
pub open spec fn in_interior(c: Cell) -> bool {
    1 <= c.0 < WIDTH - 1 && 1 <= c.1 < HEIGHT - 1
}

/// A cell of the wall ring itself, within the playfield.
pub open spec fn ring_cell(c: Cell) -> bool {
    c.0 < WIDTH && c.1 < HEIGHT && on_wall(c)
}

/// The cells of the wall ring.
pub fn wall_cells() -> (r: Vec<Cell>)
    ensures
        forall|c: Cell| r@.contains(c) <==> ring_cell(c),
{
    let mut r: Vec<Cell> = Vec::new();
    let mut y: u16 = 0;
    while y < HEIGHT
        invariant
            y <= HEIGHT,
            forall|c: Cell| r@.contains(c) <==> ring_cell(c) && c.1 < y,
        decreases HEIGHT - y,
    {
        let mut x: u16 = 0;
        while x < WIDTH
            invariant
                y < HEIGHT,
                x <= WIDTH,
                forall|c: Cell| r@.contains(c) <==> ring_cell(c) && (c.1 < y || (c.1 == y && c.0 < x)),
            decreases WIDTH - x,
        {
            if is_wall((x, y)) {
                let ghost before = r@;
                r.push((x, y));
                proof {
                    assert forall|c: Cell| r@.contains(c) <==> before.contains(c) || c == (x, y) by {
                        if before.contains(c) {
                            let i = choose|i: int| 0 <= i < before.len() && before[i] == c;
                            assert(r@[i] == c);
                        }
                        if c == (x, y) {
                            assert(r@[before.len() as int] == c);
                        }
                        if r@.contains(c) {
                            let i = choose|i: int| 0 <= i < r@.len() && r@[i] == c;
                            if i < before.len() {
                                assert(before[i] == c);
                            }
                        }
                    }
                }
            }
            x = x + 1;
        }
        y = y + 1;
    }
    r
}

/// The cell next to `c` in direction `d`, saturating at the bounds of `u16`.
pub fn next_cell(c: Cell, d: Direction) -> (r: Cell)
    ensures
        r == step(c, d),
{
    let (x, y) = c;
    match d {
        Direction::Up => (x, y.saturating_sub(1)),
        Direction::Down => (x, y.saturating_add(1)),
        Direction::Left => (x.saturating_sub(1), y),
        Direction::Right => (x.saturating_add(1), y),
    }
}

/// Whether `c` lies on the wall ring or outside the playfield.
pub fn is_wall(c: Cell) -> (r: bool)
    ensures
        r == on_wall(c),
{
    c.0 == 0 || c.0 >= WIDTH - 1 || c.1 == 0 || c.1 >= HEIGHT - 1
}

/// A step that does not saturate lands on a neighbouring cell.
pub proof fn lemma_step_adjacent(c: Cell, d: Direction)
    requires
        !step_saturates(c, d),
    ensures
        adjacent(c, step(c, d)),
{
}

} // verus!
