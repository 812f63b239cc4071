//! Text-mode rendering: the game state drawn onto a character grid, and the
//! grid flattened to a string. The grid is plain data; putting it on a screen
//! is the driver's business.

use vstd::prelude::*;

use crate::game::Game;
use crate::snake::{
    body_glyph, direction_of, lemma_direction_of_correct, lemma_opposite_delta, unit_step,
    Direction, Snake,
};

verus! {

/// Anything that can draw itself onto a character grid.
pub trait Printable: Sized {
    /// What must hold of the value and the buffer for drawing to be possible.
    spec fn print_req(&self, grid: Seq<Vec<char>>) -> bool;

    /// How the buffer after drawing relates to the buffer before.
    spec fn printed(&self, before: Seq<Vec<char>>, after: Seq<Vec<char>>) -> bool;

    /// Draw this value onto the grid.
    fn print(&mut self, rendered: &mut Vec<Vec<char>>)
        requires
            old(self).print_req(old(rendered)@),
        ensures
            old(self).printed(old(rendered)@, final(rendered)@),
            *final(self) == *old(self),
    ;
}

/// The grid keeps its row count and every row its length.
pub open spec fn dims_kept(before: Seq<Vec<char>>, after: Seq<Vec<char>>) -> bool {
    &&& after.len() == before.len()
    &&& forall|y: int| 0 <= y < before.len() ==> (#[trigger] after[y])@.len() == before[y]@.len()
}

/// The position names a cell of the grid.
pub open spec fn in_grid(p: (i32, i32), grid: Seq<Vec<char>>) -> bool {
    &&& 0 <= p.0 < grid.len()
    &&& 0 <= p.1 < grid[p.0 as int]@.len()
}

/// The character the grid holds at a position.
pub open spec fn cell(grid: Seq<Vec<char>>, p: (i32, i32)) -> char
    recommends
        in_grid(p, grid),
{
    grid[p.0 as int]@[p.1 as int]
}

/// The glyph for the snake's head, an arrow along its heading.
pub open spec fn head_glyph(d: Direction) -> char {
    match d {
        Direction::Up => '^',
        Direction::Right => '>',
        Direction::Down => 'v',
        Direction::Left => '<',
    }
}

/// The glyph for the snake's tail: a straight segment along the direction of
/// travel off the tail cell.
pub open spec fn tail_glyph(d: Direction) -> char {
    if d == Direction::Up || d == Direction::Down {
        '\u{2551}'
    } else {
        '\u{2550}'
    }
}

/// Every apple cell shows an apple; every other cell is untouched.
pub open spec fn apples_printed(
    apples: Seq<(i32, i32)>,
    before: Seq<Vec<char>>,
    after: Seq<Vec<char>>,
) -> bool {
    &&& dims_kept(before, after)
    &&& forall|k: int| 0 <= k < apples.len() ==> cell(after, #[trigger] apples[k]) == 'O'
    &&& forall|y: int, x: int|
        0 <= y < before.len() && 0 <= x < before[y]@.len() && !apples.contains(
            (y as i32, x as i32),
        ) ==> (#[trigger] after[y]@[x]) == before[y]@[x]
}

/// Consecutive body cells `k` and `k + 1` are one grid step apart.
pub open spec fn step_at(b: Seq<(i32, i32)>, k: int) -> bool
    recommends
        0 <= k < b.len() - 1,
{
    unit_step(b[k], b[k + 1])
}

/// A body that can be drawn: at least head and tail, every cell on the grid,
/// consecutive cells one grid step apart, and no cell covered twice.
pub open spec fn body_ok(b: Seq<(i32, i32)>, grid: Seq<Vec<char>>) -> bool {
    &&& b.len() >= 2
    &&& forall|k: int| 0 <= k < b.len() ==> in_grid(#[trigger] b[k], grid)
    &&& forall|k: int| 0 <= k < b.len() - 1 ==> #[trigger] step_at(b, k)
    &&& forall|k1: int, k2: int| #![trigger b[k1], b[k2]] 0 <= k1 < k2 < b.len() ==> b[k1] != b[k2]
}

/// The snake drawn onto the grid: an arrow on the head cell, a corner or
/// straight glyph on each middle cell, a straight glyph on the tail cell,
/// and every other cell untouched.
pub open spec fn snake_printed(s: Snake, before: Seq<Vec<char>>, after: Seq<Vec<char>>) -> bool {
    let b = s.body@;
    &&& dims_kept(before, after)
    &&& cell(after, b[0]) == head_glyph(direction_of(b[0], b[1]))
    &&& forall|k: int| 1 <= k < b.len() - 1 ==> #[trigger] cell(after, b[k]) == body_glyph(
        direction_of(b[k - 1], b[k]),
        direction_of(b[k], b[k + 1]),
    )
    &&& cell(after, b[b.len() - 1]) == tail_glyph(direction_of(b[b.len() - 2], b[b.len() - 1]))
    &&& forall|y: int, x: int|
        0 <= y < before.len() && 0 <= x < before[y]@.len() && !b.contains((y as i32, x as i32))
            ==> (#[trigger] after[y]@[x]) == before[y]@[x]
}

/// Write one character of the grid, leaving every other cell alone.
fn set_cell(grid: &mut Vec<Vec<char>>, y: usize, x: usize, c: char)
    requires
        y < old(grid)@.len(),
        x < old(grid)@[y as int]@.len(),
    ensures
        final(grid)@.len() == old(grid)@.len(),
        forall|i: int| 0 <= i < old(grid)@.len() && i != y ==> final(grid)@[i] == old(grid)@[i],
        final(grid)@[y as int]@ == old(grid)@[y as int]@.update(x as int, c),
{
    grid[y][x] = c;
}

impl Printable for Vec<(i32, i32)> {
    /// Every listed position lies on the grid.
    open spec fn print_req(&self, grid: Seq<Vec<char>>) -> bool {
        forall|k: int| 0 <= k < self@.len() ==> in_grid(#[trigger] self@[k], grid)
    }

    open spec fn printed(&self, before: Seq<Vec<char>>, after: Seq<Vec<char>>) -> bool {
        apples_printed(self@, before, after)
    }

    /// Draw an apple on each listed position.
    fn print(&mut self, rendered: &mut Vec<Vec<char>>) {
        let mut k: usize = 0;
        while k < self.len()
            invariant
                k <= self@.len(),
                forall|j: int| 0 <= j < self@.len() ==> in_grid(#[trigger] self@[j], rendered@),
                dims_kept(old(rendered)@, rendered@),
                self@ == old(self)@,
                forall|j: int| 0 <= j < k ==> cell(rendered@, #[trigger] self@[j]) == 'O',
                forall|y: int, x: int|
                    0 <= y < rendered@.len() && 0 <= x < rendered@[y]@.len() && !self@.contains(
                        (y as i32, x as i32),
                    ) ==> (#[trigger] rendered@[y]@[x]) == old(rendered)@[y]@[x],
            decreases self@.len() - k,
        {
            let p = self[k];
            set_cell(rendered, p.0 as usize, p.1 as usize, 'O');
            k += 1;
        }
    }
}

impl Printable for Snake {
    /// The body can be drawn onto the grid.
    open spec fn print_req(&self, grid: Seq<Vec<char>>) -> bool {
        body_ok(self.body@, grid)
    }

    open spec fn printed(&self, before: Seq<Vec<char>>, after: Seq<Vec<char>>) -> bool {
        snake_printed(*self, before, after)
    }

    /// Draw head arrow, middle glyphs and tail glyph, in that order; the
    /// cells are distinct, so no stroke overpaints another.
    #[verifier::spinoff_prover]
    #[verifier::rlimit(30)]
    fn print(&mut self, rendered: &mut Vec<Vec<char>>) {
        let ghost b = self.body@;
        let ghost g0 = rendered@;
        proof {
            assert(step_at(b, 0));
            assert(step_at(b, b.len() - 2));
            assert(unit_step(b[0], b[1]));
            assert(unit_step(b[b.len() - 2], b[b.len() - 1]));
        }
        self.render_snake_head(rendered);
        let ghost g1 = rendered@;
        self.render_snake_body(rendered);
        let ghost g2 = rendered@;
        self.render_snake_tail(rendered);
        proof {
            let n = b.len();
            let mids = b.subrange(1, n - 1);
            let g3 = rendered@;
            assert forall|p: (i32, i32)| mids.contains(p) implies b.contains(p) && p != b[0] && p
                != b[n - 1] by {
                let j = choose|j: int| 0 <= j < mids.len() && mids[j] == p;
                assert(b[j + 1] == p);
            }
            assert(!mids.contains(b[0]));
            assert(!mids.contains(b[n - 1]));
            // The head arrow survives the later strokes.
            assert(cell(g2, b[0]) == cell(g1, b[0]));
            assert(cell(g3, b[0]) == cell(g2, b[0]));
            // Each middle glyph survives the tail stroke.
            assert forall|k: int| 1 <= k < n - 1 implies #[trigger] cell(g3, b[k]) == body_glyph(
                direction_of(b[k - 1], b[k]),
                direction_of(b[k], b[k + 1]),
            ) by {
                assert(b[k] != b[n - 1]);
                assert(cell(g2, b[k]) == body_glyph(
                    direction_of(b[k - 1], b[k]),
                    direction_of(b[k], b[k + 1]),
                ));
                assert(cell(g3, b[k]) == cell(g2, b[k]));
            }
            // The tail cell was untouched until the tail stroke painted it.
            assert(cell(g1, b[n - 1]) == cell(g0, b[n - 1]));
            assert(cell(g2, b[n - 1]) == cell(g1, b[n - 1]));
            // Cells off the body pass through all three strokes unchanged.
            assert forall|y: int, x: int|
                0 <= y < g0.len() && 0 <= x < g0[y]@.len() && !b.contains((y as i32, x as i32))
                    implies (#[trigger] g3[y]@[x]) == g0[y]@[x] by {
                let p = (y as i32, x as i32);
                assert(p != b[0] && p != b[n - 1]);
                assert(!mids.contains(p));
                assert(g1[y]@[x] == g0[y]@[x]);
                assert(g2[y]@[x] == g1[y]@[x]);
                assert(g3[y]@[x] == g2[y]@[x]);
            }
        }
    }
}

impl Snake {
    /// Draw the head arrow onto the head cell.
    fn render_snake_head(&self, rendered: &mut Vec<Vec<char>>)
        requires
            self.body@.len() >= 2,
            unit_step(self.body@[0], self.body@[1]),
            in_grid(self.body@[0], old(rendered)@),
        ensures
            dims_kept(old(rendered)@, final(rendered)@),
            cell(final(rendered)@, self.body@[0]) == head_glyph(
                direction_of(self.body@[0], self.body@[1]),
            ),
            forall|y: int, x: int|
                0 <= y < old(rendered)@.len() && 0 <= x < old(rendered)@[y]@.len()
                    && ((y as i32, x as i32) != self.body@[0])
                    ==> (#[trigger] final(rendered)@[y]@[x]) == old(rendered)@[y]@[x],
    {
        let direction = Snake::direction(self.body[0], self.body[1]);
        let (y, x) = self.body[0];
        let glyph = match direction {
            Direction::Up => '^',
            Direction::Right => '>',
            Direction::Down => 'v',
            Direction::Left => '<',
        };
        set_cell(rendered, y as usize, x as usize, glyph);
    }

    /// Draw the joining glyph onto every cell between head and tail. Each is
    /// chosen from the directions towards the segment before and from the
    /// segment after; the body's cells are distinct, so no pair of those
    /// directions is a reversal.
    #[verifier::spinoff_prover]
    #[verifier::rlimit(30)]
    fn render_snake_body(&self, rendered: &mut Vec<Vec<char>>)
        requires
            body_ok(self.body@, old(rendered)@),
        ensures
            dims_kept(old(rendered)@, final(rendered)@),
            forall|k: int| 1 <= k < self.body@.len() - 1 ==> #[trigger] cell(
                final(rendered)@,
                self.body@[k],
            ) == body_glyph(
                direction_of(self.body@[k - 1], self.body@[k]),
                direction_of(self.body@[k], self.body@[k + 1]),
            ),
            forall|y: int, x: int|
                0 <= y < old(rendered)@.len() && 0 <= x < old(rendered)@[y]@.len()
                    && !self.body@.subrange(1, self.body@.len() - 1).contains((y as i32, x as i32))
                    ==> (#[trigger] final(rendered)@[y]@[x]) == old(rendered)@[y]@[x],
    {
        let ghost b = self.body@;
        let ghost n = b.len();
        let total = self.body.len();
        let mut k: usize = 1;
        while k + 1 < total
            invariant
                b == self.body@,
                n == b.len(),
                total == n,
                body_ok(b, old(rendered)@),
                1 <= k <= n - 1,
                dims_kept(old(rendered)@, rendered@),
                forall|j: int| 1 <= j < k ==> #[trigger] cell(rendered@, b[j]) == body_glyph(
                    direction_of(b[j - 1], b[j]),
                    direction_of(b[j], b[j + 1]),
                ),
                forall|y: int, x: int|
                    0 <= y < old(rendered)@.len() && 0 <= x < old(rendered)@[y]@.len()
                        && !b.subrange(1, k as int).contains((y as i32, x as i32)) ==> (
                    #[trigger] rendered@[y]@[x]) == old(rendered)@[y]@[x],
            decreases n - k,
        {
            let w0 = self.body[k - 1];
            let w1 = self.body[k];
            let w2 = self.body[k + 1];
            proof {
                assert(step_at(b, k - 1));
                assert(step_at(b, k as int));
                assert(unit_step(b[k - 1], b[k as int]));
                assert(unit_step(b[k as int], b[k + 1]));
            }
            let to = Snake::direction(w0, w1);
            let from = Snake::direction(w1, w2);
            proof {
                lemma_direction_of_correct(w0, w1);
                lemma_direction_of_correct(w1, w2);
                if from == to.opposite() {
                    lemma_opposite_delta(to);
                    assert(w2.0 == w0.0 && w2.1 == w0.1);
                    assert(b[k - 1] == b[k + 1]);
                }
            }
            let joining_glyph = Snake::get_body_glyph_from_directions(to, from);
            let ghost mid_grid = rendered@;
            set_cell(rendered, w1.0 as usize, w1.1 as usize, joining_glyph);
            proof {
                assert forall|j: int| 1 <= j < k + 1 implies #[trigger] cell(rendered@, b[j])
                    == body_glyph(direction_of(b[j - 1], b[j]), direction_of(b[j], b[j + 1])) by {
                    if j < k {
                        assert(b[j] != b[k as int]);
                        assert(cell(rendered@, b[j]) == cell(mid_grid, b[j]));
                    } else {
                        assert(cell(rendered@, b[j]) == joining_glyph);
                    }
                }
                let sub_prev = b.subrange(1, k as int);
                let sub_next = b.subrange(1, k as int + 1);
                assert forall|p: (i32, i32)| sub_prev.contains(p) || p == b[k as int]
                    implies sub_next.contains(p) by {
                    if sub_prev.contains(p) {
                        let j = choose|j: int| 0 <= j < sub_prev.len() && sub_prev[j] == p;
                        assert(sub_next[j] == p);
                    } else {
                        assert(sub_next[k - 1] == p);
                    }
                }
            }
            k += 1;
        }
    }

    /// Draw the straight tail glyph onto the tail cell, along the direction
    /// of travel off it.
    fn render_snake_tail(&self, rendered: &mut Vec<Vec<char>>)
        requires
            self.body@.len() >= 2,
            unit_step(self.body@[self.body@.len() - 2], self.body@[self.body@.len() - 1]),
            in_grid(self.body@[self.body@.len() - 1], old(rendered)@),
        ensures
            dims_kept(old(rendered)@, final(rendered)@),
            cell(final(rendered)@, self.body@[self.body@.len() - 1]) == tail_glyph(
                direction_of(self.body@[self.body@.len() - 2], self.body@[self.body@.len() - 1]),
            ),
            forall|y: int, x: int|
                0 <= y < old(rendered)@.len() && 0 <= x < old(rendered)@[y]@.len()
                    && ((y as i32, x as i32) != self.body@[self.body@.len() - 1])
                    ==> (#[trigger] final(rendered)@[y]@[x]) == old(rendered)@[y]@[x],
    {
        let n = self.body.len();
        let before_tail = self.body[n - 2];
        let tail = self.body[n - 1];
        let direction = Snake::direction(before_tail, tail);
        let glyph = match direction {
            Direction::Up | Direction::Down => '\u{2551}',
            Direction::Right | Direction::Left => '\u{2550}',
        };
        set_cell(rendered, tail.0 as usize, tail.1 as usize, glyph);
    }
}

/// The whole game drawn onto a blank grid: the snake's glyphs on its cells,
/// an apple on every apple cell not under the snake, a blank everywhere else.
pub open spec fn game_rendered(g: Game, after: Seq<Vec<char>>) -> bool {
    let b = g.snake.body@;
    &&& after.len() == g.height
    &&& forall|y: int| 0 <= y < after.len() ==> (#[trigger] after[y])@.len() == g.width
    &&& cell(after, b[0]) == head_glyph(direction_of(b[0], b[1]))
    &&& forall|k: int| 1 <= k < b.len() - 1 ==> #[trigger] cell(after, b[k]) == body_glyph(
        direction_of(b[k - 1], b[k]),
        direction_of(b[k], b[k + 1]),
    )
    &&& cell(after, b[b.len() - 1]) == tail_glyph(direction_of(b[b.len() - 2], b[b.len() - 1]))
    &&& forall|y: int, x: int|
        0 <= y < after.len() && 0 <= x < after[y]@.len() && !b.contains((y as i32, x as i32))
            ==> (#[trigger] after[y]@[x]) == (if g.apples@.contains((y as i32, x as i32)) {
            'O'
        } else {
            ' '
        })
}

/// The grid rows joined in order, each closed with a newline; the first `n`
/// rows only.
pub open spec fn rows_string(grid: Seq<Vec<char>>, n: int) -> Seq<char>
    decreases n,
{
    if n <= 0 {
        Seq::empty()
    } else {
        rows_string(grid, n - 1) + grid[n - 1]@ + seq!['\n']
    }
}

impl Printable for Game {
    /// The buffer has exactly the board's rows and columns, the snake's body
    /// can be drawn, and every apple lies on the board.
    open spec fn print_req(&self, grid: Seq<Vec<char>>) -> bool {
        &&& self.height <= i32::MAX
        &&& self.width <= i32::MAX
        &&& grid.len() == self.height
        &&& forall|y: int| 0 <= y < grid.len() ==> (#[trigger] grid[y])@.len() == self.width
        &&& body_ok(self.snake.body@, grid)
        &&& forall|k: int| 0 <= k < self.apples@.len() ==> in_grid(#[trigger] self.apples@[k], grid)
    }

    open spec fn printed(&self, before: Seq<Vec<char>>, after: Seq<Vec<char>>) -> bool {
        game_rendered(*self, after)
    }

    /// Draw the full game state onto the grid.
    fn print(&mut self, rendered: &mut Vec<Vec<char>>) {
        self.render(rendered);
    }
}

impl Game {
    /// Blank the grid, then draw apples, then the snake on top.
    #[verifier::spinoff_prover]
    #[verifier::rlimit(30)]
    fn render(&mut self, rendered: &mut Vec<Vec<char>>)
        requires
            old(self).print_req(old(rendered)@),
        ensures
            *final(self) == *old(self),
            game_rendered(*old(self), final(rendered)@),
    {
        let ghost g0 = rendered@;
        let ghost b = self.snake.body@;
        let ghost apples = self.apples@;
        self.clear(rendered);
        let ghost ga = rendered@;
        proof {
            assert forall|k: int| 0 <= k < apples.len() implies in_grid(
                #[trigger] apples[k],
                ga,
            ) by {
                assert(in_grid(apples[k], g0));
            }
        }
        self.apples.print(rendered);
        let ghost gb = rendered@;
        proof {
            assert forall|k: int| 0 <= k < b.len() implies in_grid(#[trigger] b[k], gb) by {
                assert(in_grid(b[k], g0));
            }
        }
        self.snake.print(rendered);
        proof {
            let g1 = rendered@;
            let n = b.len();
            assert(cell(g1, b[0]) == head_glyph(direction_of(b[0], b[1])));
            assert(cell(g1, b[n - 1]) == tail_glyph(direction_of(b[n - 2], b[n - 1])));
            assert forall|y: int, x: int|
                0 <= y < g1.len() && 0 <= x < g1[y]@.len() && !b.contains((y as i32, x as i32))
                    implies (#[trigger] g1[y]@[x]) == (if apples.contains((y as i32, x as i32)) {
                'O'
            } else {
                ' '
            }) by {
                let p = (y as i32, x as i32);
                assert(g1[y]@[x] == gb[y]@[x]);
                if apples.contains(p) {
                    let k = choose|k: int| 0 <= k < apples.len() && apples[k] == p;
                    assert(cell(gb, apples[k]) == 'O');
                } else {
                    assert(gb[y]@[x] == ga[y]@[x]);
                }
            }
        }
    }

    /// Blank every cell of the grid.
    fn clear(&mut self, rendered: &mut Vec<Vec<char>>)
        ensures
            *final(self) == *old(self),
            dims_kept(old(rendered)@, final(rendered)@),
            forall|y: int, x: int|
                0 <= y < final(rendered)@.len() && 0 <= x < final(rendered)@[y]@.len() ==> (
                #[trigger] final(rendered)@[y]@[x]) == ' ',
    {
        let mut y: usize = 0;
        while y < rendered.len()
            invariant
                y <= rendered@.len(),
                dims_kept(old(rendered)@, rendered@),
                forall|i: int, x: int|
                    0 <= i < y && 0 <= x < rendered@[i]@.len() ==> (#[trigger] rendered@[i]@[x])
                        == ' ',
            decreases rendered@.len() - y,
        {
            let mut x: usize = 0;
            let row_len = rendered[y].len();
            while x < row_len
                invariant
                    y < rendered@.len(),
                    x <= row_len,
                    row_len == rendered@[y as int]@.len(),
                    dims_kept(old(rendered)@, rendered@),
                    forall|i: int, j: int|
                        0 <= i < y && 0 <= j < rendered@[i]@.len() ==> (
                        #[trigger] rendered@[i]@[j]) == ' ',
                    forall|j: int|
                        0 <= j < x ==> (#[trigger] rendered@[y as int]@[j]) == ' ',
                decreases row_len - x,
            {
                set_cell(rendered, y, x, ' ');
                x += 1;
            }
            y += 1;
        }
    }

    /// Draw the game and flatten the grid to one string, each row closed
    /// with a newline.
    pub fn render_to_string(&mut self, rendered: &mut Vec<Vec<char>>) -> (out: String)
        requires
            old(self).print_req(old(rendered)@),
        ensures
            *final(self) == *old(self),
            game_rendered(*old(self), final(rendered)@),
            out@ == rows_string(final(rendered)@, old(self).height as int),
    {
        self.render(rendered);
        let ghost gfin = rendered@;
        let mut out = String::new();
        let mut y: usize = 0;
        while y < rendered.len()
            invariant
                rendered@ == gfin,
                y <= rendered@.len(),
                out@ == rows_string(rendered@, y as int),
            decreases rendered@.len() - y,
        {
            let mut x: usize = 0;
            let row_len = rendered[y].len();
            while x < row_len
                invariant
                    rendered@ == gfin,
                    y < rendered@.len(),
                    x <= row_len,
                    row_len == rendered@[y as int]@.len(),
                    out@ == rows_string(rendered@, y as int) + rendered@[y as int]@.subrange(
                        0,
                        x as int,
                    ),
                decreases row_len - x,
            {
                let c = rendered[y][x];
                push_char(&mut out, c);
                proof {
                    assert(out@ =~= rows_string(rendered@, y as int) + rendered@[
                        y as int
                    ]@.subrange(0, x as int + 1));
                }
                x += 1;
            }
            push_char(&mut out, '\n');
            proof {
                assert(rendered@[y as int]@.subrange(0, row_len as int) =~= rendered@[y as int]@);
                assert(out@ =~= rows_string(rendered@, y as int + 1));
            }
            y += 1;
        }
        proof {
            assert(rendered@.len() == old(self).height);
        }
        out
    }
}

/// Relies on String::push: appends exactly one character at the end.
#[verifier::external_body]
fn push_char(s: &mut String, c: char)
    ensures
        final(s)@ == old(s)@.push(c),
{
    s.push(c)
}

/// The starting game of the text mode: a 20 x 20 board, a five-cell snake on
/// the middle row heading right, and three apples placed by hand. The driver
/// renders it and runs the input loop from there.
pub fn stringy_main() -> (g: Game)
    ensures
        g.wf(),
        !g.over,
        g.snake.body@ == seq![
            (10i32, 10i32),
            (10i32, 9i32),
            (10i32, 8i32),
            (10i32, 7i32),
            (10i32, 6i32),
        ],
        g.snake.direction == Direction::Right,
        !g.snake.lengthening,
        g.snake.confines == (20i32, 20i32),
        g.width == 20,
        g.height == 20,
        g.score == 0,
        !g.direction_changed_this_tick,
        g.apples@ == seq![(4i32, 4i32), (9i32, 9i32), (9i32, 10i32)],
{
    proof {
        assert(Direction::Right.delta() == (0int, 1int));
    }
    let mut game = Game::new(20, 20, &[(10, 10), (10, 9), (10, 8), (10, 7), (10, 6)]);
    game.apples = Vec::new();
    game.apples.push((4, 4));
    game.apples.push((9, 9));
    game.apples.push((9, 10));
    proof {
        assert(game.apples@ =~= seq![(4i32, 4i32), (9i32, 9i32), (9i32, 10i32)]);
    }
    game
}

/// Map a typed character onto a steering request: the w, a, s, d keys pick a
/// heading, anything else is ignored.
pub fn get_snake_direction_from_input(input: char) -> (r: Option<Direction>)
    ensures
        r == (match input {
            'w' => Some(Direction::Up),
            'a' => Some(Direction::Left),
            's' => Some(Direction::Down),
            'd' => Some(Direction::Right),
            _ => None::<Direction>,
        }),
{
    match input {
        'w' => Some(Direction::Up),
        'a' => Some(Direction::Left),
        's' => Some(Direction::Down),
        'd' => Some(Direction::Right),
        _ => None,
    }
}

} // verus!
