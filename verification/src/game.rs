//! The whole game state and its tick: advancing the snake, eating and
//! respawning apples, and the steering rules applied between ticks.

use rand::Rng;
use std::collections::VecDeque;
use vstd::arithmetic::div_mod::{
    lemma_div_pos_is_pos, lemma_mod_division_less_than_divisor, lemma_multiply_divide_lt,
};
use vstd::prelude::*;

use crate::snake::{deque_from_slice, direction_of, unit_step, Direction, Snake};

verus! {

/// The cell visited at `offset` of a row-major scan of a `width`-column grid.
pub open spec fn cell_at(width: int, offset: int) -> (i32, i32)
    recommends
        width > 0,
        0 <= offset,
{
    ((offset / width) as i32, (offset % width) as i32)
}

/// The free cells of a `height` x `width` grid from scan position `offset`
/// on, in row-major order: every cell not listed in `occupied`.
pub open spec fn free_cells_from(
    width: int,
    height: int,
    occupied: Seq<(i32, i32)>,
    offset: int,
) -> Seq<(i32, i32)>
    decreases width * height - offset,
{
    if offset < 0 || offset >= width * height {
        Seq::empty()
    } else if occupied.contains(cell_at(width, offset)) {
        free_cells_from(width, height, occupied, offset + 1)
    } else {
        seq![cell_at(width, offset)] + free_cells_from(width, height, occupied, offset + 1)
    }
}

/// A cell a new apple may land on: on the board and not occupied.
pub open spec fn spawnable(
    p: (i32, i32),
    width: int,
    height: int,
    occupied: Seq<(i32, i32)>,
) -> bool {
    &&& 0 <= p.0 < height
    &&& 0 <= p.1 < width
    &&& !occupied.contains(p)
}

/// Every cell the scan yields is on the board and free.
pub proof fn lemma_free_cells_spawnable(
    width: int,
    height: int,
    occupied: Seq<(i32, i32)>,
    offset: int,
)
    requires
        0 < width <= i32::MAX,
        0 < height <= i32::MAX,
        0 <= offset,
    ensures
        forall|k: int| 0 <= k < free_cells_from(width, height, occupied, offset).len()
            ==> spawnable(
                #[trigger] free_cells_from(width, height, occupied, offset)[k],
                width,
                height,
                occupied,
            ),
    decreases width * height - offset,
{
    if offset < width * height {
        let c = cell_at(width, offset);
        lemma_div_pos_is_pos(offset, width);
        lemma_multiply_divide_lt(offset, width, height);
        lemma_mod_division_less_than_divisor(offset, width);
        lemma_free_cells_spawnable(width, height, occupied, offset + 1);
        let rest = free_cells_from(width, height, occupied, offset + 1);
        if !occupied.contains(c) {
            assert forall|k: int|
                0 <= k < free_cells_from(width, height, occupied, offset).len() implies spawnable(
                #[trigger] free_cells_from(width, height, occupied, offset)[k],
                width,
                height,
                occupied,
            ) by {
                if k > 0 {
                    assert(free_cells_from(width, height, occupied, offset)[k] == rest[k - 1]);
                }
            }
        }
    }
}

/// The scan can yield at most one cell per scan position left.
pub proof fn lemma_free_cells_len(width: int, height: int, occupied: Seq<(i32, i32)>, offset: int)
    requires
        0 <= offset,
    ensures
        free_cells_from(width, height, occupied, offset).len() <= width * height - offset
            || free_cells_from(width, height, occupied, offset).len() == 0,
    decreases width * height - offset,
{
    if offset < width * height {
        lemma_free_cells_len(width, height, occupied, offset + 1);
    }
}

/// An enumerator over the free cells of the board: all grid cells in
/// row-major order, skipping those listed in `occupied`.
#[derive(Clone, Copy)]
pub struct AvailableSpaces<'a> {
    /// Column count, fixing the row-major order of the scan.
    pub width: usize,
    /// Row count; together with `width` it bounds the scan.
    pub height: usize,
    /// The occupied positions the scan skips.
    pub occupied: &'a VecDeque<(i32, i32)>,
    /// The scan position: cells before it have already been yielded or
    /// skipped.
    pub offset: usize,
}

impl<'a> AvailableSpaces<'a> {
    /// The scan position lies within the board and the board size fits the
    /// machine's arithmetic.
    pub open spec fn wf(self) -> bool {
        &&& self.width <= i32::MAX
        &&& self.height <= i32::MAX
        &&& self.width * self.height <= usize::MAX
        &&& self.offset <= self.width * self.height
    }

    /// The free cells this enumerator has not yielded yet.
    pub open spec fn remaining(self) -> Seq<(i32, i32)> {
        free_cells_from(self.width as int, self.height as int, self.occupied@, self.offset as int)
    }

    pub fn new(width: usize, height: usize, occupied: &'a VecDeque<(i32, i32)>) -> (s: Self)
        requires
            width <= i32::MAX,
            height <= i32::MAX,
            width * height <= usize::MAX,
        ensures
            s.wf(),
            s.width == width,
            s.height == height,
            s.occupied == occupied,
            s.offset == 0,
    {
        Self { width, height, occupied, offset: 0 }
    }

    /// Yield the next free cell of the scan, or `None` once none are left.
    pub fn next(&mut self) -> (r: Option<(i32, i32)>)
        requires
            old(self).wf(),
        ensures
            final(self).wf(),
            final(self).width == old(self).width,
            final(self).height == old(self).height,
            final(self).occupied == old(self).occupied,
            ({
                let s = old(self).remaining();
                if s.len() == 0 {
                    r is None && final(self).remaining().len() == 0
                } else {
                    r == Some(s[0]) && final(self).remaining() == s.drop_first()
                }
            }),
    {
        while self.offset != self.width * self.height
            invariant
                self.wf(),
                self.width == old(self).width,
                self.height == old(self).height,
                self.occupied == old(self).occupied,
                self.remaining() == old(self).remaining(),
            decreases self.width * self.height - self.offset,
        {
            proof {
                lemma_div_pos_is_pos(self.offset as int, self.width as int);
                lemma_multiply_divide_lt(self.offset as int, self.width as int, self.height as int);
                lemma_mod_division_less_than_divisor(self.offset as int, self.width as int);
            }
            let y: i32 = (self.offset / self.width) as i32;
            let x: i32 = (self.offset % self.width) as i32;
            let ghost scanned = self.offset as int;
            self.offset += 1;
            if !deque_contains(self.occupied, (y, x)) {
                proof {
                    let s = free_cells_from(
                        self.width as int,
                        self.height as int,
                        self.occupied@,
                        scanned,
                    );
                    assert(s == seq![(y, x)] + self.remaining());
                    assert(s.drop_first() =~= self.remaining());
                }
                return Some((y, x));
            }
        }
        None
    }

    /// How many free cells are left to yield.
    pub fn count(&self) -> (n: usize)
        requires
            self.wf(),
        ensures
            n == self.remaining().len(),
    {
        let mut off: usize = self.offset;
        let mut n: usize = 0;
        proof {
            lemma_free_cells_len(
                self.width as int,
                self.height as int,
                self.occupied@,
                self.offset as int,
            );
        }
        while off != self.width * self.height
            invariant
                self.wf(),
                self.offset <= off <= self.width * self.height,
                n + free_cells_from(
                    self.width as int,
                    self.height as int,
                    self.occupied@,
                    off as int,
                ).len() == self.remaining().len(),
                self.remaining().len() <= self.width * self.height,
            decreases self.width * self.height - off,
        {
            proof {
                assert(off < self.width * self.height);
                assert(0 < self.width) by (nonlinear_arith)
                    requires
                        off < self.width * self.height,
                ;
                lemma_div_pos_is_pos(off as int, self.width as int);
                lemma_multiply_divide_lt(off as int, self.width as int, self.height as int);
                lemma_mod_division_less_than_divisor(off as int, self.width as int);
            }
            let y: i32 = (off / self.width) as i32;
            let x: i32 = (off % self.width) as i32;
            if !deque_contains(self.occupied, (y, x)) {
                n += 1;
            }
            off += 1;
        }
        n
    }
}

/// The apples on the board after a spawn attempt on a board with the given
/// occupied cells: when a free cell exists, exactly one apple has been
/// appended and it lies on a free cell; on a full board nothing changes.
pub open spec fn spawned(
    before: Seq<(i32, i32)>,
    after: Seq<(i32, i32)>,
    occupied: Seq<(i32, i32)>,
    width: int,
    height: int,
) -> bool {
    if free_cells_from(width, height, occupied, 0).len() > 0 {
        &&& after.len() == before.len() + 1
        &&& after.drop_last() == before
        &&& spawnable(after.last(), width, height, occupied)
    } else {
        after == before
    }
}

/// The entire game's state.
pub struct Game {
    /// Whether the game has ended; set by the driver once `dead` reports a
    /// collision.
    pub over: bool,
    pub snake: Snake,
    /// The apples on the board. The positions are pairwise distinct: one is
    /// only ever added on a cell the spawn scan reported free.
    pub apples: Vec<(i32, i32)>,
    /// Column count of the board.
    pub width: usize,
    /// Apples eaten so far.
    pub score: u32,
    /// Row count of the board.
    pub height: usize,
    /// Set when the heading has already been changed once in this tick;
    /// further changes are ignored until the next tick. This keeps two quick
    /// key presses within one tick from turning the snake back into itself.
    pub direction_changed_this_tick: bool,
}

impl Game {
    /// The board fits the machine's arithmetic, the snake has a body, and the
    /// snake is judged against this board's bounds.
    pub open spec fn wf(self) -> bool {
        &&& self.width <= i32::MAX
        &&& self.height <= i32::MAX
        &&& self.width * self.height <= usize::MAX
        &&& self.snake.body@.len() > 0
        &&& self.snake.confines == (self.height as i32, self.width as i32)
    }

    /// A fresh game: a snake over the given body cells heading away from its
    /// second cell, no apples yet, score zero, and the game running. The
    /// driver is expected to trigger the first spawn.
    pub fn new(width: usize, height: usize, snake_body: &[(i32, i32)]) -> (g: Game)
        requires
            snake_body@.len() >= 2,
            unit_step(snake_body@[0], snake_body@[1]),
            width <= i32::MAX,
            height <= i32::MAX,
            width * height <= usize::MAX,
        ensures
            g.wf(),
            !g.over,
            g.snake.body@ == snake_body@,
            g.snake.direction == direction_of(snake_body@[0], snake_body@[1]),
            !g.snake.lengthening,
            g.snake.confines == (height as i32, width as i32),
            g.apples@ == Seq::<(i32, i32)>::empty(),
            g.width == width,
            g.height == height,
            g.score == 0,
            !g.direction_changed_this_tick,
    {
        Game {
            over: false,
            snake: Snake {
                body: deque_from_slice(snake_body),
                lengthening: false,
                direction: Snake::head_direction(snake_body),
                confines: (height as i32, width as i32),
            },
            score: 0,
            apples: Vec::new(),
            width,
            height,
            direction_changed_this_tick: false,
        }
    }

    /// One tick: advance the snake; if the new head lands on an apple, count
    /// it, mark the snake lengthening and remove the apple (a head that just
    /// died still eats); respawn when no apple is left; and release the
    /// steering latch for the next tick. Whether the snake died is for the
    /// caller to check afterwards.
    pub fn advance(&mut self)
        requires
            old(self).wf(),
            old(self).snake.can_step(),
            old(self).score < u32::MAX,
        ensures
            final(self).wf(),
            final(self).over == old(self).over,
            final(self).width == old(self).width,
            final(self).height == old(self).height,
            final(self).snake.direction == old(self).snake.direction,
            final(self).snake.confines == old(self).snake.confines,
            final(self).snake.body@ == old(self).snake.advanced_body(),
            final(self).snake.body@.len() == old(self).snake.body@.len() + (if old(
                self,
            ).snake.lengthening {
                1int
            } else {
                0int
            }),
            !final(self).direction_changed_this_tick,
            ({
                let head = old(self).snake.next_head();
                let ate = old(self).apples@.contains(head);
                let mid = if ate {
                    old(self).apples@.remove_value(head)
                } else {
                    old(self).apples@
                };
                &&& final(self).snake.lengthening == ate
                &&& final(self).score == old(self).score + (if ate {
                    1int
                } else {
                    0int
                })
                &&& if mid.len() == 0 {
                    spawned(
                        mid,
                        final(self).apples@,
                        old(self).snake.advanced_body(),
                        old(self).width as int,
                        old(self).height as int,
                    )
                } else {
                    final(self).apples@ == mid
                }
            }),
    {
        self.snake.advance();
        let head = self.snake.body[0];
        if vec_contains(&self.apples, head) {
            self.score += 1;
            self.snake.lengthening = true;
            remove_first(&mut self.apples, head);
        }
        if self.apples.len() == 0 {
            self.add_new_apple();
        }
        self.direction_changed_this_tick = false;
    }

    /// Put one new apple on a free cell, chosen at random among all free
    /// cells of the board; on a full board, leave the game as it is.
    fn add_new_apple(&mut self)
        requires
            old(self).wf(),
        ensures
            final(self).wf(),
            final(self).over == old(self).over,
            final(self).snake == old(self).snake,
            final(self).width == old(self).width,
            final(self).height == old(self).height,
            final(self).score == old(self).score,
            final(self).direction_changed_this_tick == old(self).direction_changed_this_tick,
            spawned(
                old(self).apples@,
                final(self).apples@,
                old(self).snake.body@,
                old(self).width as int,
                old(self).height as int,
            ),
    {
        let mut spaces = AvailableSpaces::new(self.width, self.height, &self.snake.body);
        let mut free: Vec<(i32, i32)> = Vec::new();
        loop
            invariant
                spaces.wf(),
                spaces.width == self.width,
                spaces.height == self.height,
                spaces.occupied@ == self.snake.body@,
                free@ + spaces.remaining() == free_cells_from(
                    self.width as int,
                    self.height as int,
                    self.snake.body@,
                    0,
                ),
            ensures
                free@ == free_cells_from(
                    self.width as int,
                    self.height as int,
                    self.snake.body@,
                    0,
                ),
            decreases spaces.remaining().len(),
        {
            match spaces.next() {
                Some(c) => {
                    free.push(c);
                    proof {
                        assert(free@ + spaces.remaining() =~= free@.drop_last() + (seq![c]
                            + spaces.remaining()));
                    }
                },
                None => {
                    proof {
                        assert(free@ + spaces.remaining() =~= free@);
                    }
                    break ;
                },
            }
        }
        if free.len() > 0 {
            proof {
                if self.width == 0 || self.height == 0 {
                    assert(free@.len() == 0);
                }
                lemma_free_cells_spawnable(
                    self.width as int,
                    self.height as int,
                    self.snake.body@,
                    0,
                );
            }
            let idx = random_below(free.len());
            let p = free[idx];
            self.apples.push(p);
            proof {
                assert(self.apples@.drop_last() =~= old(self).apples@);
            }
        }
    }

    /// Steer the snake: the first change of a tick is applied unless it would
    /// exactly reverse the current heading; any further request in the same
    /// tick is ignored until `advance` releases the latch.
    pub fn change_direction(&mut self, requested: Direction)
        ensures
            final(self).snake.direction == (if !old(self).direction_changed_this_tick && old(
                self,
            ).snake.direction != requested.opposite() {
                requested
            } else {
                old(self).snake.direction
            }),
            final(self).direction_changed_this_tick == (old(self).direction_changed_this_tick
                || old(self).snake.direction != requested.opposite()),
            final(self).over == old(self).over,
            final(self).snake.body@ == old(self).snake.body@,
            final(self).snake.lengthening == old(self).snake.lengthening,
            final(self).snake.confines == old(self).snake.confines,
            final(self).apples@ == old(self).apples@,
            final(self).width == old(self).width,
            final(self).height == old(self).height,
            final(self).score == old(self).score,
    {
        if self.direction_changed_this_tick {
            return ;
        }
        if let Some(direction) = get_snake_direction_from_keypress(requested, self.snake.direction)
             {
            self.snake.direction = direction;
            self.direction_changed_this_tick = true;
        }
    }
}

/// The starting game of the graphical mode: a 20 x 20 board, a five-cell
/// snake on the middle row heading left, and one apple already spawned.
pub fn get_starting_game() -> (g: Game)
    ensures
        g.wf(),
        !g.over,
        g.snake.body@ == seq![(10i32, 10i32), (10i32, 11i32), (10i32, 12i32), (10i32, 13i32), (10i32, 14i32)],
        g.snake.direction == Direction::Left,
        !g.snake.lengthening,
        g.snake.confines == (20i32, 20i32),
        g.width == 20,
        g.height == 20,
        g.score == 0,
        !g.direction_changed_this_tick,
        spawned(Seq::empty(), g.apples@, g.snake.body@, 20, 20),
{
    proof {
        assert(Direction::Left.delta() == (0int, -1int));
    }
    let mut game = Game::new(20, 20, &[(10, 10), (10, 11), (10, 12), (10, 13), (10, 14)]);
    game.add_new_apple();
    game
}

/// Map a steering request onto the current heading: a request that would
/// exactly reverse the snake is rejected, any other is taken as the new
/// heading.
pub fn get_snake_direction_from_keypress(input: Direction, current_direction: Direction) -> (r:
    Option<Direction>)
    ensures
        r == (if current_direction == input.opposite() {
            Option::<Direction>::None
        } else {
            Option::Some(input)
        }),
{
    match (input, current_direction) {
        (Direction::Up, Direction::Down) => None,
        (Direction::Down, Direction::Up) => None,
        (Direction::Right, Direction::Left) => None,
        (Direction::Left, Direction::Right) => None,
        _ => Some(input),
    }
}

/// Relies on rand::thread_rng and rand::Rng::gen_range over `0..n`: a
/// uniformly chosen value of the non-empty range, hence strictly below `n`.
#[verifier::external_body]
fn random_below(n: usize) -> (r: usize)
    requires
        0 < n,
    ensures
        r < n,
{
    rand::thread_rng().gen_range(0..n)
}

/// Whether the vector holds the given position.
fn vec_contains(v: &Vec<(i32, i32)>, p: (i32, i32)) -> (r: bool)
    ensures
        r == v@.contains(p),
{
    let mut i: usize = 0;
    while i < v.len()
        invariant
            i <= v@.len(),
            forall|j: int| 0 <= j < i ==> #[trigger] v@[j] != p,
        decreases v@.len() - i,
    {
        let e = v[i];
        if e.0 == p.0 && e.1 == p.1 {
            proof {
                assert(v@[i as int] == p);
            }
            return true;
        }
        i += 1;
    }
    false
}

/// Remove the first occurrence of the given position, if any.
fn remove_first(v: &mut Vec<(i32, i32)>, p: (i32, i32))
    ensures
        final(v)@ == old(v)@.remove_value(p),
{
    let mut i: usize = 0;
    while i < v.len()
        invariant
            i <= v@.len(),
            v@ == old(v)@,
            forall|j: int| 0 <= j < i ==> #[trigger] v@[j] != p,
        decreases v@.len() - i,
    {
        let e = v[i];
        if e.0 == p.0 && e.1 == p.1 {
            proof {
                assert(v@[i as int] == p);
                old(v)@.index_of_first_ensures(p);
                assert(old(v)@.index_of_first(p) == Some(i as int));
            }
            let _ = v.remove(i);
            return ;
        }
        i += 1;
    }
    proof {
        assert(!old(v)@.contains(p));
        old(v)@.index_of_first_ensures(p);
    }
}

/// Whether the deque holds the given position.
fn deque_contains(q: &VecDeque<(i32, i32)>, p: (i32, i32)) -> (r: bool)
    ensures
        r == q@.contains(p),
{
    let mut i: usize = 0;
    while i < q.len()
        invariant
            i <= q@.len(),
            forall|j: int| 0 <= j < i ==> #[trigger] q@[j] != p,
        decreases q@.len() - i,
    {
        let e = q[i];
        if e.0 == p.0 && e.1 == p.1 {
            proof {
                assert(q@[i as int] == p);
            }
            return true;
        }
        i += 1;
    }
    false
}

} // verus!
