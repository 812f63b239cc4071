//! The snake itself: its heading, its body queue, and the glyphs used when it
//! is drawn onto a character grid.

use std::collections::VecDeque;
use vstd::prelude::*;

verus! {

/// The four headings a snake can travel in.
#[derive(Clone, Copy, PartialEq, Eq, Structural, Debug)]
pub enum Direction {
    Up,
    Right,
    Down,
    Left,
}

impl Direction {
    /// The grid step one tick of travel adds to a position, as
    /// (row delta, column delta).
    pub open spec fn delta(self) -> (int, int) {
        match self {
            Direction::Up => (-1int, 0int),
            Direction::Right => (0int, 1int),
            Direction::Down => (1int, 0int),
            Direction::Left => (0int, -1int),
        }
    }

    /// The heading that exactly undoes this one.
    pub open spec fn opposite(self) -> Direction {
        match self {
            Direction::Up => Direction::Down,
            Direction::Right => Direction::Left,
            Direction::Down => Direction::Up,
            Direction::Left => Direction::Right,
        }
    }
}

/// No two headings share a grid step.
pub proof fn lemma_delta_injective(a: Direction, b: Direction)
    ensures
        a.delta() == b.delta() ==> a == b,
{
}

/// Opposite headings have exactly opposite grid steps.
pub proof fn lemma_opposite_delta(d: Direction)
    ensures
        d.opposite().delta().0 == -d.delta().0,
        d.opposite().delta().1 == -d.delta().1,
{
}

/// Two positions are one grid step apart: they differ by exactly one unit in
/// exactly one axis.
pub open spec fn unit_step(now: (i32, i32), then: (i32, i32)) -> bool {
    exists|d: Direction| #[trigger] d.delta() == (now.0 - then.0, now.1 - then.1)
}

/// The unique heading that leads from `then` to `now`, for positions one grid
/// step apart.
pub open spec fn direction_of(now: (i32, i32), then: (i32, i32)) -> Direction
    recommends
        unit_step(now, then),
{
    if now.0 - then.0 == -1 && now.1 == then.1 {
        Direction::Up
    } else if now.0 - then.0 == 1 && now.1 == then.1 {
        Direction::Down
    } else if now.1 - then.1 == 1 && now.0 == then.0 {
        Direction::Right
    } else {
        Direction::Left
    }
}

/// For adjacent positions, `direction_of` picks exactly the heading whose grid
/// step carries `then` onto `now`, and no other heading does.
pub proof fn lemma_direction_of_correct(now: (i32, i32), then: (i32, i32))
    requires
        unit_step(now, then),
    ensures
        direction_of(now, then).delta() == (now.0 - then.0 as int, now.1 - then.1 as int),
        forall|d: Direction| #[trigger] d.delta() == (now.0 - then.0 as int, now.1 - then.1 as int)
            ==> d == direction_of(now, then),
{
    let witness = choose|d: Direction| #[trigger] d.delta() == (now.0 - then.0, now.1 - then.1);
    assert(direction_of(now, then).delta() == (now.0 - then.0 as int, now.1 - then.1 as int));
}

/// A snake: an ordered body queue with the head at the front, a heading, the
/// one-shot growth flag, and the board bounds it is judged against.
pub struct Snake {
    /// Current heading of the snake.
    pub direction: Direction,
    /// Whether an apple was just swallowed; the next advance consumes the flag
    /// and skips the tail removal.
    pub lengthening: bool,
    /// The cells the body covers, head first, tail last.
    pub body: VecDeque<(i32, i32)>,
    /// The board bounds (row count, column count) used for wall-collision
    /// testing.
    pub confines: (i32, i32),
}

impl Snake {
    /// The body is non-empty and the cell one step ahead of the head still
    /// fits in the position type, so that an advance can be computed.
    pub open spec fn can_step(self) -> bool {
        &&& self.body@.len() > 0
        &&& i32::MIN <= self.body@[0].0 + self.direction.delta().0 <= i32::MAX
        &&& i32::MIN <= self.body@[0].1 + self.direction.delta().1 <= i32::MAX
    }

    /// The cell the head moves onto at the next advance.
    pub open spec fn next_head(self) -> (i32, i32)
        recommends
            self.can_step(),
    {
        (
            (self.body@[0].0 + self.direction.delta().0) as i32,
            (self.body@[0].1 + self.direction.delta().1) as i32,
        )
    }

    /// The body after one advance: the next head is pushed onto the front; the
    /// tail is kept when the snake is lengthening and dropped otherwise.
    pub open spec fn advanced_body(self) -> Seq<(i32, i32)>
        recommends
            self.can_step(),
    {
        let pushed = seq![self.next_head()] + self.body@;
        if self.lengthening {
            pushed
        } else {
            pushed.drop_last()
        }
    }

    /// The head lies off the board, or on another body segment.
    pub open spec fn dead_at(self) -> bool
        recommends
            self.body@.len() > 0,
    {
        let h = self.body@[0];
        ||| h.0 < 0
        ||| h.1 < 0
        ||| h.0 >= self.confines.0
        ||| h.1 >= self.confines.1
        ||| exists|i: int| 1 <= i < self.body@.len() && self.body@[i] == h
    }

    /// A straight-line snake over the given body cells, bounded by a 20 x 20
    /// board as the text-mode game uses.
    pub fn from_body(body: &[(i32, i32)]) -> (s: Snake)
        requires
            body@.len() >= 2,
            unit_step(body@[0], body@[1]),
        ensures
            s.body@ == body@,
            s.direction == direction_of(body@[0], body@[1]),
            s.confines == (20i32, 20i32),
            !s.lengthening,
    {
        Snake {
            body: deque_from_slice(body),
            direction: Snake::head_direction(body),
            confines: (20, 20),
            lengthening: false,
        }
    }

    /// Move the snake one cell along its heading: push the new head onto the
    /// front of the body and, unless the growth flag is set, drop the tail.
    /// The move is unconditional; whether it ran into a wall or into the body
    /// is for `dead` to judge afterwards.
    pub fn advance(&mut self)
        requires
            old(self).can_step(),
        ensures
            final(self).body@ == old(self).advanced_body(),
            final(self).body@.len() > 0,
            final(self).body@[0] == old(self).next_head(),
            final(self).body@[0].0 == old(self).body@[0].0 + old(self).direction.delta().0,
            final(self).body@[0].1 == old(self).body@[0].1 + old(self).direction.delta().1,
            final(self).body@.len() == old(self).body@.len() + (if old(self).lengthening {
                1int
            } else {
                0int
            }),
            !final(self).lengthening,
            final(self).direction == old(self).direction,
            final(self).confines == old(self).confines,
    {
        let (dy, dx) = Snake::advancement_to_add(&self.direction);
        let head = self.body[0];
        let new = (head.0 + dy, head.1 + dx);
        self.body.push_front(new);
        if self.lengthening {
            self.lengthening = false;
        } else {
            let _ = self.body.pop_back();
            proof {
                assert(self.body@ =~= old(self).advanced_body());
            }
        }
    }

    /// Whether the snake has died: the head is outside the confines, or it
    /// coincides with another body segment.
    pub fn dead(&self) -> (r: bool)
        requires
            self.body@.len() > 0,
        ensures
            r == self.dead_at(),
    {
        let head = self.body[0];
        if head.0 < 0 || head.1 < 0 || head.0 >= self.confines.0 || head.1 >= self.confines.1 {
            return true;
        }
        let mut i: usize = 1;
        while i < self.body.len()
            invariant
                1 <= i <= self.body@.len(),
                head == self.body@[0],
                forall|j: int| 1 <= j < i ==> #[trigger] self.body@[j] != self.body@[0],
            decreases self.body@.len() - i,
        {
            let seg = self.body[i];
            if seg.0 == head.0 && seg.1 == head.1 {
                proof {
                    assert(self.body@[i as int] == self.body@[0]);
                }
                return true;
            }
            proof {
                assert(self.body@[i as int] != self.body@[0]);
            }
            i += 1;
        }
        false
    }

    /// The grid step for a heading, as executable values.
    fn advancement_to_add(direction: &Direction) -> (r: (i32, i32))
        ensures
            r.0 == direction.delta().0,
            r.1 == direction.delta().1,
    {
        match direction {
            Direction::Up => (-1, 0),
            Direction::Right => (0, 1),
            Direction::Down => (1, 0),
            Direction::Left => (0, -1),
        }
    }

    /// The corner or straight glyph for a body segment that is left towards
    /// `to` and entered from `from`. The four reversal pairs never occur on a
    /// body whose cells are distinct, and are excluded here.
    pub fn get_body_glyph_from_directions(to: Direction, from: Direction) -> (c: char)
        requires
            from != to.opposite(),
        ensures
            c == body_glyph(to, from),
    {
        match (to, from) {
            (Direction::Up, Direction::Up) => '\u{2551}',
            (Direction::Up, Direction::Right) => '\u{255d}',
            (Direction::Up, Direction::Left) => '\u{255a}',
            (Direction::Right, Direction::Up) => '\u{2554}',
            (Direction::Right, Direction::Right) => '\u{2550}',
            (Direction::Right, Direction::Down) => '\u{255a}',
            (Direction::Down, Direction::Right) => '\u{2557}',
            (Direction::Down, Direction::Down) => '\u{2551}',
            (Direction::Down, Direction::Left) => '\u{2554}',
            (Direction::Left, Direction::Up) => '\u{2557}',
            (Direction::Left, Direction::Down) => '\u{255d}',
            (Direction::Left, Direction::Left) => '\u{2550}',
            _ => ' ',
        }
    }

    /// The heading read off the first two body cells: the direction of travel
    /// from the second cell to the head.
    pub fn head_direction(body: &[(i32, i32)]) -> (d: Direction)
        requires
            body@.len() >= 2,
            unit_step(body@[0], body@[1]),
        ensures
            d == direction_of(body@[0], body@[1]),
    {
        Snake::direction(body[0], body[1])
    }

    /// The heading that carries `then` onto `now`, for two positions one grid
    /// step apart.
    pub fn direction(now: (i32, i32), then: (i32, i32)) -> (d: Direction)
        requires
            unit_step(now, then),
        ensures
            d == direction_of(now, then),
            d.delta() == (now.0 - then.0 as int, now.1 - then.1 as int),
    {
        proof {
            lemma_direction_of_correct(now, then);
        }
        let dy = now.0 - then.0;
        let dx = now.1 - then.1;
        if dy == -1 && dx == 0 {
            Direction::Up
        } else if dy == 1 && dx == 0 {
            Direction::Down
        } else if dy == 0 && dx == 1 {
            Direction::Right
        } else {
            Direction::Left
        }
    }
}

/// The glyph table for body segments; the four reversal pairs are
/// geometrically impossible and map to a blank.
pub open spec fn body_glyph(to: Direction, from: Direction) -> char {
    match (to, from) {
        (Direction::Up, Direction::Up) => '\u{2551}',
        (Direction::Up, Direction::Right) => '\u{255d}',
        (Direction::Up, Direction::Left) => '\u{255a}',
        (Direction::Right, Direction::Up) => '\u{2554}',
        (Direction::Right, Direction::Right) => '\u{2550}',
        (Direction::Right, Direction::Down) => '\u{255a}',
        (Direction::Down, Direction::Right) => '\u{2557}',
        (Direction::Down, Direction::Down) => '\u{2551}',
        (Direction::Down, Direction::Left) => '\u{2554}',
        (Direction::Left, Direction::Up) => '\u{2557}',
        (Direction::Left, Direction::Down) => '\u{255d}',
        (Direction::Left, Direction::Left) => '\u{2550}',
        _ => ' ',
    }
}

/// A segment entered and left along one heading is drawn straight: a vertical
/// bar for up or down, a horizontal bar for left or right.
pub proof fn lemma_straight_glyph(d: Direction)
    ensures
        body_glyph(d, d) == (if d == Direction::Up || d == Direction::Down {
            '\u{2551}'
        } else {
            '\u{2550}'
        }),
{
}

/// A deque holding exactly the cells of the slice, in order.
pub fn deque_from_slice(cells: &[(i32, i32)]) -> (q: VecDeque<(i32, i32)>)
    ensures
        q@ == cells@,
{
    let mut q: VecDeque<(i32, i32)> = VecDeque::new();
    let mut i: usize = 0;
    while i < cells.len()
        invariant
            0 <= i <= cells@.len(),
            q@ == cells@.subrange(0, i as int),
        decreases cells@.len() - i,
    {
        q.push_back(cells[i]);
        i += 1;
    }
    proof {
        assert(q@ =~= cells@);
    }
    q
}

} // verus!
