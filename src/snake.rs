//! The snake: its body, the cell its tail last left, and its heading.
use vstd::prelude::*;
use crate::grid::{Cell, Direction, HEIGHT, WIDTH, adjacent, next_cell, on_wall, is_wall, step, step_saturates, lemma_step_adjacent};

verus! {

/// The snake. `body` runs from head to tail; `grow_space` is the cell that the
/// tail left on the last move, kept so that growth can put it back.
pub struct Snake {
    pub body: Vec<Cell>,
    pub grow_space: Cell,
    pub direction: Direction,
}

/// The body after one move towards `d`: a new head in front, the tail dropped.
pub open spec fn advanced(body: Seq<Cell>, d: Direction) -> Seq<Cell>
    recommends
        body.len() > 0,
{
    seq![step(body[0], d)] + body.drop_last()
}

/// The head touches or crosses the wall ring, or lies on another body cell.
pub open spec fn colliding(body: Seq<Cell>) -> bool
    recommends
        body.len() > 0,
{
    on_wall(body[0]) || exists|i: int| 1 <= i < body.len() && #[trigger] body[i] == body[0]
}

/// Each cell of the body shares a side with the next one.
pub open spec fn is_chain(body: Seq<Cell>) -> bool {
    forall|i: int| 0 <= i < body.len() - 1 ==> #[trigger] adjacent(body[i], body[i + 1])
}

impl Snake {
    /// The snake is never empty.
    pub open spec fn wf(&self) -> bool {
        self.body@.len() > 0
    }

    /// A snake of one cell at the centre of the playfield, heading right.
    pub fn new() -> (s: Snake)
        ensures
            s.wf(),
            s.body@ == seq![(WIDTH / 2, HEIGHT / 2)],
            s.grow_space == ((WIDTH / 2 + 1) as u16, (HEIGHT / 2 + 1) as u16),
            s.direction == Direction::Right,
    {
        let mut body: Vec<Cell> = Vec::new();
        body.push((WIDTH / 2, HEIGHT / 2));
        Snake {
            body,
            grow_space: (WIDTH / 2 + 1, HEIGHT / 2 + 1),
            direction: Direction::Right,
        }
    }

    /// Moves one cell in the current direction: the new head goes in front,
    /// the tail cell is removed and kept as `grow_space`.
    pub fn move_forward(&mut self)
        requires
            old(self).wf(),
        ensures
            final(self).wf(),
            final(self).body@ == advanced(old(self).body@, old(self).direction),
            final(self).grow_space == old(self).body@.last(),
            final(self).direction == old(self).direction,
    {
        let head = self.body[0];
        let new_head = next_cell(head, self.direction);
        self.body.insert(0, new_head);
        let tail = self.body.pop();
        match tail {
            Some(c) => {
                self.grow_space = c;
            },
            None => {},
        }
        proof {
            assert(self.body@ =~= advanced(old(self).body@, old(self).direction));
        }
    }

    /// Puts the cell that the tail last left back at the tail end.
    pub fn grow(&mut self)
        requires
            old(self).wf(),
        ensures
            final(self).wf(),
            final(self).body@ == old(self).body@.push(old(self).grow_space),
            final(self).grow_space == old(self).grow_space,
            final(self).direction == old(self).direction,
    {
        self.body.push(self.grow_space);
    }

    /// Whether the head is on the wall ring or on another cell of the body.
    pub fn check_collision(&self) -> (r: bool)
        requires
            self.wf(),
        ensures
            r == colliding(self.body@),
    {
        let head = self.body[0];
        if is_wall(head) {
            return true;
        }
        let mut i: usize = 1;
        while i < self.body.len()
            invariant
                1 <= i <= self.body@.len(),
                head == self.body@[0],
                forall|j: int| 1 <= j < i ==> self.body@[j] != head,
            decreases self.body@.len() - i,
        {
            let c = self.body[i];
            if c.0 == head.0 && c.1 == head.1 {
                return true;
            }
            i = i + 1;
        }
        false
    }

    /// Sets the heading used by the next move. Any direction is accepted,
    /// including the reverse of the current one.
    pub fn set_direction(&mut self, d: Direction)
        ensures
            final(self).direction == d,
            final(self).body@ == old(self).body@,
            final(self).grow_space == old(self).grow_space,
    {
        self.direction = d;
    }
}

/// A move keeps the length of the body, and a body whose cells form a chain
/// still forms one after the move, as long as the step stays within the range
/// of the coordinates.
pub proof fn lemma_advance_keeps_chain(body: Seq<Cell>, d: Direction)
    requires
        body.len() > 0,
        is_chain(body),
        !step_saturates(body[0], d),
    ensures
        advanced(body, d).len() == body.len(),
        is_chain(advanced(body, d)),
{
    let a = advanced(body, d);
    lemma_step_adjacent(body[0], d);
    assert forall|i: int| 0 <= i < a.len() - 1 implies #[trigger] adjacent(a[i], a[i + 1]) by {
        if i > 0 {
            let j = i - 1;
            assert(a[i] == body[j]);
            assert(a[i + 1] == body[j + 1]);
            assert(adjacent(body[j], body[j + 1]));
        }
    }
}

/// Growing right after a move lengthens the body by one cell, and the new tail
/// is the cell that the move vacated. A chain stays a chain.
pub proof fn lemma_grow_after_advance(body: Seq<Cell>, d: Direction)
    requires
        body.len() > 0,
    ensures
        advanced(body, d).push(body.last()).len() == body.len() + 1,
        advanced(body, d).push(body.last()).last() == body.last(),
        is_chain(body) && !step_saturates(body[0], d) ==> is_chain(
            advanced(body, d).push(body.last()),
        ),
{
    if is_chain(body) && !step_saturates(body[0], d) {
        lemma_advance_keeps_chain(body, d);
        let a = advanced(body, d);
        let g = a.push(body.last());
        assert forall|i: int| 0 <= i < g.len() - 1 implies #[trigger] adjacent(g[i], g[i + 1]) by {
            if i < a.len() - 1 {
                assert(g[i] == a[i] && g[i + 1] == a[i + 1]);
            } else if body.len() == 1 {
                assert(g[i] == step(body[0], d));
                lemma_step_adjacent(body[0], d);
                assert(g[i + 1] == body[0]);
                assert(adjacent(g[i + 1], g[i]));
            } else {
                let j = body.len() - 2;
                assert(g[i] == body[j]);
                assert(g[i + 1] == body[j + 1]);
                assert(adjacent(body[j], body[j + 1]));
            }
        }
    }
}

/// A new snake does not collide.
pub proof fn lemma_new_snake_clear()
    ensures
        !colliding(seq![(WIDTH / 2, HEIGHT / 2)]),
{
}

} // verus!
