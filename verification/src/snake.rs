//! The Snake game: the snake body, the per-tick state machine, and the
//! rendering of the board and the final score into the framebuffer.

use vstd::prelude::*;

use crate::ledc::{px, LedControl};
use crate::ledc::{lemma_px_masks, lemma_px_zero};
use crate::mapping::{num_map, num_map_spec};
use crate::{Direction, Gd, Position};

verus! {

/// The snake: an ordered sequence of cells from head (front) to tail
/// (back), and the last committed heading.
pub struct Snake {
    pub direction: Direction,
    pub head: Position,
    pub body: Vec<Position>,
}

impl Snake {
    /// The body holds at least two cells and the head is its front cell.
    pub open spec fn wf(self) -> bool {
        &&& self.body@.len() >= 2
        &&& self.head == self.body@[0]
    }

    /// A two-cell snake heading up: the given head, and a tail one cell
    /// below it.
    pub fn new(head: Position) -> (r: Self)
        requires
            head.y < i8::MAX,
        ensures
            r.wf(),
            r.direction == Direction::Up,
            r.head == head,
            r.body@ == seq![head, Position { x: head.x, y: (head.y + 1) as i8 }],
    {
        let mut body: Vec<Position> = Vec::new();
        body.push(head);
        body.push(Position { x: head.x, y: head.y + 1 });
        proof {
            assert(body@ =~= seq![head, Position { x: head.x, y: (head.y + 1) as i8 }]);
        }
        Self { direction: Direction::Up, head, body }
    }

    /// Adopt `dir` as the new heading, unless it would reverse the current
    /// heading: a 180 degree turn is ignored.
    pub fn set_direction(&mut self, dir: Direction)
        ensures
            final(self).direction == (if dir == old(self).direction.opposite_spec() {
                old(self).direction
            } else {
                dir
            }),
            final(self).head == old(self).head,
            final(self).body == old(self).body,
    {
        if dir == self.direction.opposite() {
            return ;
        }
        self.direction = dir;
    }

    /// Push `food` as the new head without removing the tail: the body
    /// grows by one cell.
    pub fn grow(&mut self, food: Position)
        requires
            old(self).body@.len() < usize::MAX,
        ensures
            final(self).head == food,
            final(self).body@ == seq![food] + old(self).body@,
            final(self).direction == old(self).direction,
    {
        self.head = food;
        self.body.insert(0, food);
        proof {
            assert(final(self).body@ =~= seq![food] + old(self).body@);
        }
    }

    /// Move one step: push the next head and pop the tail, keeping the
    /// length unchanged.
    pub fn advance(&mut self)
        requires
            old(self).body@.len() >= 1,
            old(self).body@.len() < usize::MAX,
            i8::MIN < old(self).head.x < i8::MAX,
            i8::MIN < old(self).head.y < i8::MAX,
        ensures
            final(self).head == old(self).head.next_spec(old(self).direction),
            final(self).body@ == seq![final(self).head] + old(self).body@.drop_last(),
            final(self).direction == old(self).direction,
    {
        let next_head = self.next_head_pos();
        self.body.insert(0, next_head);
        self.body.pop();
        self.head = next_head;
        proof {
            assert(final(self).body@ =~= seq![next_head] + old(self).body@.drop_last());
        }
    }

    /// The cell the head would move to under the current heading.
    pub fn next_head_pos(&self) -> (r: Position)
        requires
            i8::MIN < self.head.x < i8::MAX,
            i8::MIN < self.head.y < i8::MAX,
        ensures
            r == self.head.next_spec(self.direction),
    {
        self.head.next(self.direction)
    }

    /// Whether `p` collides with a body cell other than the head cell.
    pub fn overlapping(&self, p: Position) -> (b: bool)
        requires
            self.body@.len() >= 1,
        ensures
            b == exists|j: int| 1 <= j < self.body@.len() && self.body@[j] == p,
    {
        let n = self.body.len();
        let mut i: usize = 1;
        while i < n
            invariant
                1 <= i <= n,
                n == self.body@.len(),
                forall|j: int| 1 <= j < i ==> self.body@[j] != p,
            decreases n - i,
        {
            if self.body[i] == p {
                return true;
            }
            i = i + 1;
        }
        false
    }

    /// Whether `p` is one of the body's cells.
    pub fn contains_cell(&self, p: Position) -> (b: bool)
        ensures
            b == self.body@.contains(p),
    {
        let n = self.body.len();
        let mut i: usize = 0;
        while i < n
            invariant
                0 <= i <= n,
                n == self.body@.len(),
                forall|j: int| 0 <= j < i ==> self.body@[j] != p,
            decreases n - i,
        {
            if self.body[i] == p {
                return true;
            }
            i = i + 1;
        }
        false
    }

    /// Rasterize the body into eight rows: the pixel at `(x, y)` is lit
    /// exactly when some body cell sits there.
    pub fn as_bytes(&self) -> (r: [u8; 8])
        ensures
            forall|x: u8, y: u8|
                x < 8 && y < 8 ==> (#[trigger] px(r@[y as int], x) <==> self.body@.contains(
                    Position { x: x as i8, y: y as i8 },
                )),
    {
        let mut bs: [u8; 8] = [0; 8];
        let mut y: u8 = 0;
        while y < 8
            invariant
                y <= 8,
                forall|cx: u8, cy: u8|
                    cx < 8 && cy < y ==> (#[trigger] px(bs@[cy as int], cx)
                        <==> self.body@.contains(Position { x: cx as i8, y: cy as i8 })),
            decreases 8 - y,
        {
            let mut tmp: u8 = 0;
            proof {
                lemma_px_zero();
            }
            let mut x: u8 = 0;
            while x < 8
                invariant
                    x <= 8,
                    y < 8,
                    forall|cx: u8|
                        cx < x ==> (#[trigger] px(tmp, cx) <==> self.body@.contains(
                            Position { x: cx as i8, y: y as i8 },
                        )),
                    forall|cx: u8| x <= cx < 8 ==> !#[trigger] px(tmp, cx),
                decreases 8 - x,
            {
                if self.contains_cell(Position { x: x as i8, y: y as i8 }) {
                    proof {
                        lemma_px_masks(tmp, x);
                    }
                    tmp = tmp | (1u8 << (7 - x));
                }
                x = x + 1;
            }
            bs[y as usize] = tmp;
            y = y + 1;
        }
        bs
    }
}

} // verus!

verus! {

/// The heading that one tick adopts: the gravity direction mapped to a
/// heading, except that no tilt keeps the current heading and a reading
/// opposite to the current heading is ignored.
pub open spec fn step_heading(cur: Direction, gd: Gd) -> Direction {
    let cand = match gd {
        Gd::Idle => cur,
        Gd::Up => Direction::Up,
        Gd::Right => Direction::Right,
        Gd::Down => Direction::Down,
        Gd::Left => Direction::Left,
    };
    if cand == cur.opposite_spec() {
        cur
    } else {
        cand
    }
}

/// A set of distinct cells inside the eight by eight board holds at most
/// sixty-four cells.
pub proof fn lemma_body_capacity(s: Seq<Position>)
    requires
        s.no_duplicates(),
        forall|i: int| 0 <= i < s.len() ==> 0 <= (#[trigger] s[i]).x < 8 && 0 <= s[i].y < 8,
    ensures
        s.len() <= 64,
{
    broadcast use vstd::seq_lib::seq_to_set_is_finite;
    broadcast use vstd::set::group_set_axioms;

    let cells = s.to_set();
    s.unique_seq_to_set();
    let f = |p: Position| p.y as int * 8 + p.x as int;
    let ids = cells.map(f);
    assert forall|p: Position, q: Position|
        cells.contains(p) && cells.contains(q) && #[trigger] f(p) == #[trigger] f(q) implies p
        == q by {
        assert(s.contains(p) && s.contains(q));
        assert(0 <= p.x < 8 && 0 <= p.y < 8 && 0 <= q.x < 8 && 0 <= q.y < 8);
    }
    vstd::set_lib::lemma_map_size(cells, ids, f);
    vstd::set_lib::lemma_int_range(0, 64);
    assert forall|id: int| ids.contains(id) implies vstd::set_lib::set_int_range(
        0,
        64,
    ).contains(id) by {
        let p = choose|p: Position| cells.contains(p) && f(p) == id;
        assert(s.contains(p));
        assert(0 <= p.x < 8 && 0 <= p.y < 8);
    }
    vstd::set_lib::lemma_len_subset(ids, vstd::set_lib::set_int_range(0, 64));
}

/// Fewer than sixty-four distinct cells cannot cover the eight by eight
/// board: some board cell is free.
pub proof fn lemma_free_cell_exists(s: Seq<Position>)
    requires
        s.no_duplicates(),
        forall|i: int| 0 <= i < s.len() ==> 0 <= (#[trigger] s[i]).x < 8 && 0 <= s[i].y < 8,
        s.len() < 64,
    ensures
        exists|p: Position| 0 <= p.x < 8 && 0 <= p.y < 8 && !s.contains(p),
{
    broadcast use vstd::seq_lib::seq_to_set_is_finite;
    broadcast use vstd::set::group_set_axioms;

    if forall|p: Position| 0 <= p.x < 8 && 0 <= p.y < 8 ==> #[trigger] s.contains(p) {
        let g = |id: int| Position { x: (id % 8) as i8, y: (id / 8) as i8 };
        let board = vstd::set_lib::set_int_range(0, 64).map(g);
        vstd::set_lib::lemma_int_range(0, 64);
        assert forall|a: int, b: int|
            vstd::set_lib::set_int_range(0, 64).contains(a) && vstd::set_lib::set_int_range(
                0,
                64,
            ).contains(b) && #[trigger] g(a) == #[trigger] g(b) implies a == b by {
            assert(a == (a / 8) * 8 + a % 8);
            assert(b == (b / 8) * 8 + b % 8);
        }
        vstd::set_lib::lemma_map_size(vstd::set_lib::set_int_range(0, 64), board, g);
        s.unique_seq_to_set();
        assert forall|p: Position| board.contains(p) implies s.to_set().contains(p) by {
            let id = choose|id: int|
                vstd::set_lib::set_int_range(0, 64).contains(id) && g(id) == p;
            assert(0 <= id % 8 < 8 && 0 <= id / 8 < 8);
            assert(s.contains(p));
        }
        vstd::set_lib::lemma_len_subset(board, s.to_set());
        assert(false);
    }
}

/// One row of the score card: the tens glyph in the high nibble, the
/// ones glyph moved to the low nibble, the whole shifted one column
/// right.
pub open spec fn score_row(score: u8, i: int) -> u8
    recommends
        score < 100,
        0 <= i < 8,
{
    (num_map_spec(score / 10)[i] | (num_map_spec(score % 10)[i] >> 4u8)) >> 1u8
}

/// The Snake game: board bounds, the snake, the food cell, the tick wait,
/// the score, and the terminal flag.
pub struct SnakeGame {
    pub width: i8,
    pub height: i8,
    pub snake: Snake,
    pub food: Position,
    /// Wait between ticks, in milliseconds.
    pub waiting_time: u32,
    pub score: u8,
    pub game_over: bool,
}

impl SnakeGame {
    /// Whether `p` lies on the board.
    pub open spec fn in_bounds(self, p: Position) -> bool {
        0 <= p.x < self.width && 0 <= p.y < self.height
    }

    /// Well-formed game state: the board is the full matrix, the snake's
    /// cells are distinct and on the board, the food is on the board and,
    /// while play continues, off the snake, and the score counts the
    /// cells grown so far.
    pub open spec fn wf(self) -> bool {
        &&& self.width == 8
        &&& self.height == 8
        &&& self.snake.wf()
        &&& self.snake.body@.no_duplicates()
        &&& forall|i: int|
            0 <= i < self.snake.body@.len() ==> self.in_bounds(#[trigger] self.snake.body@[i])
        &&& self.in_bounds(self.food)
        &&& (!self.game_over ==> !self.snake.body@.contains(self.food))
        &&& self.score as int == self.snake.body@.len() - 2
    }

    /// The cell the head would move to this tick under gravity `gd`.
    pub open spec fn next_head_spec(self, gd: Gd) -> Position {
        self.snake.head.next_spec(step_heading(self.snake.direction, gd))
    }

    /// Whether this tick's move lands on the food.
    pub open spec fn eats(self, gd: Gd) -> bool {
        self.next_head_spec(gd) == self.food
    }

    /// Whether this tick's move leaves the board or lands on a body cell
    /// other than the head.
    pub open spec fn dies(self, gd: Gd) -> bool {
        &&& !self.eats(gd)
        &&& (!self.in_bounds(self.next_head_spec(gd)) || exists|j: int|
            1 <= j < self.snake.body@.len() && self.snake.body@[j] == self.next_head_spec(gd))
    }

    /// A fresh game on the full eight by eight board: a two-cell snake
    /// with its head at (5, 5) heading up, food off the snake, score zero.
    pub fn new(rng: &mut fastrand::Rng) -> (r: Self)
        ensures
            r.wf(),
            r.width == 8,
            r.height == 8,
            r.waiting_time == 600,
            r.score == 0,
            !r.game_over,
            r.snake.direction == Direction::Up,
            r.snake.head == (Position { x: 5i8, y: 5i8 }),
            r.snake.body@ == seq![Position { x: 5i8, y: 5i8 }, Position { x: 5i8, y: 6i8 }],
    {
        let width: i8 = 8;
        let height: i8 = 8;
        let snake = Snake::new(Position::new(5, 5));
        let mut game = SnakeGame {
            width,
            height,
            snake,
            food: Position::new(0, 0),
            waiting_time: 600,
            score: 0,
            game_over: false,
        };
        game.create_food(rng);
        game
    }

    /// Count one growth.
    pub fn calc_score(&mut self)
        requires
            old(self).score < u8::MAX,
        ensures
            final(self).score == old(self).score + 1,
            final(self).snake == old(self).snake,
            final(self).food == old(self).food,
            final(self).width == old(self).width,
            final(self).height == old(self).height,
            final(self).waiting_time == old(self).waiting_time,
            final(self).game_over == old(self).game_over,
    {
        self.score = self.score + 1;
    }

    /// Whether `next_head` lies off the board.
    pub fn outside(&self, next_head: Position) -> (b: bool)
        ensures
            b == !self.in_bounds(next_head),
    {
        next_head.x < 0 || next_head.y < 0 || next_head.x >= self.width || next_head.y
            >= self.height
    }

    /// The first board cell, in row-major order, not covered by the
    /// snake's body.
    fn first_free_cell(&self) -> (r: Position)
        requires
            self.width == 8,
            self.height == 8,
            self.snake.body@.no_duplicates(),
            forall|i: int| 0 <= i < self.snake.body@.len() ==> self.in_bounds(
                #[trigger] self.snake.body@[i],
            ),
            self.snake.body@.len() < 64,
        ensures
            self.in_bounds(r),
            !self.snake.body@.contains(r),
    {
        let mut y: i8 = 0;
        while y < 8
            invariant
                0 <= y <= 8,
                self.width == 8,
                self.height == 8,
                forall|p: Position|
                    0 <= p.x < 8 && 0 <= p.y < y ==> #[trigger] self.snake.body@.contains(p),
            decreases 8 - y,
        {
            let mut x: i8 = 0;
            while x < 8
                invariant
                    0 <= x <= 8,
                    0 <= y < 8,
                    self.width == 8,
                    self.height == 8,
                    forall|p: Position|
                        0 <= p.x < 8 && 0 <= p.y < y ==> #[trigger] self.snake.body@.contains(p),
                    forall|p: Position|
                        0 <= p.x < x && p.y == y ==> #[trigger] self.snake.body@.contains(p),
                decreases 8 - x,
            {
                let cand = Position::new(x, y);
                if !self.snake.contains_cell(cand) {
                    return cand;
                }
                x = x + 1;
            }
            y = y + 1;
        }
        proof {
            lemma_free_cell_exists(self.snake.body@);
            assert(false);
        }
        Position::new(0, 0)
    }

    /// Respawn the food at a random board cell off the snake: random
    /// candidates that collide with a body cell are rejected, and after a
    /// bounded number of rejected candidates the first free cell is taken.
    pub fn create_food(&mut self, rng: &mut fastrand::Rng)
        requires
            old(self).width == 8,
            old(self).height == 8,
            old(self).snake.body@.no_duplicates(),
            forall|i: int| 0 <= i < old(self).snake.body@.len() ==> old(self).in_bounds(
                #[trigger] old(self).snake.body@[i],
            ),
            old(self).snake.body@.len() < 64,
        ensures
            final(self).in_bounds(final(self).food),
            !final(self).snake.body@.contains(final(self).food),
            final(self).snake == old(self).snake,
            final(self).width == old(self).width,
            final(self).height == old(self).height,
            final(self).waiting_time == old(self).waiting_time,
            final(self).score == old(self).score,
            final(self).game_over == old(self).game_over,
    {
        let mut attempts: u8 = 0;
        while attempts < 100
            invariant
                *self == *old(self),
                self.width == 8,
                self.height == 8,
                self.snake.body@.no_duplicates(),
                forall|i: int| 0 <= i < self.snake.body@.len() ==> self.in_bounds(
                    #[trigger] self.snake.body@[i],
                ),
                self.snake.body@.len() < 64,
            decreases 100 - attempts,
        {
            let cand = Position::random(rng, self.width, self.height);
            if !self.snake.contains_cell(cand) {
                self.food = cand;
                return ;
            }
            attempts = attempts + 1;
        }
        let free = self.first_free_cell();
        self.food = free;
    }

    /// One tick of the game. In the terminal state the game no longer
    /// moves. Otherwise the gravity reading first steers the heading (a
    /// 180 degree reversal is ignored); then the snake eats and grows,
    /// dies, or moves one cell. When eating fills the whole board the
    /// game ends there, the board having no cell left for food.
    pub fn step(&mut self, gd: &Gd, rng: &mut fastrand::Rng)
        requires
            old(self).wf(),
        ensures
            final(self).wf(),
            final(self).width == old(self).width,
            final(self).height == old(self).height,
            final(self).waiting_time == old(self).waiting_time,
            old(self).game_over ==> *final(self) == *old(self),
            !old(self).game_over ==> {
                &&& final(self).snake.direction == step_heading(old(self).snake.direction, *gd)
                &&& final(self).game_over == (old(self).dies(*gd) || (old(self).eats(*gd) && old(
                    self,
                ).snake.body@.len() + 1 == 64))
                &&& (old(self).eats(*gd) ==> {
                    &&& final(self).snake.head == old(self).next_head_spec(*gd)
                    &&& final(self).snake.body@ == seq![old(self).next_head_spec(*gd)] + old(
                        self,
                    ).snake.body@
                    &&& final(self).score == old(self).score + 1
                    &&& (!final(self).game_over ==> !final(self).snake.body@.contains(
                        final(self).food,
                    ) && final(self).in_bounds(final(self).food))
                })
                &&& (old(self).dies(*gd) ==> {
                    &&& final(self).snake.head == old(self).snake.head
                    &&& final(self).snake.body == old(self).snake.body
                    &&& final(self).score == old(self).score
                    &&& final(self).food == old(self).food
                })
                &&& (!old(self).eats(*gd) && !old(self).dies(*gd) ==> {
                    &&& final(self).snake.head == old(self).next_head_spec(*gd)
                    &&& final(self).snake.body@ == seq![old(self).next_head_spec(*gd)] + old(
                        self,
                    ).snake.body@.drop_last()
                    &&& final(self).score == old(self).score
                    &&& final(self).food == old(self).food
                })
            },
    {
        if self.game_over {
            return ;
        }
        match gd {
            Gd::Idle => {},
            Gd::Up => self.snake.set_direction(Direction::Up),
            Gd::Right => self.snake.set_direction(Direction::Right),
            Gd::Down => self.snake.set_direction(Direction::Down),
            Gd::Left => self.snake.set_direction(Direction::Left),
        }
        let next_head = self.snake.next_head_pos();
        proof {
            lemma_body_capacity(self.snake.body@);
        }
        if self.food == next_head {
            self.snake.grow(self.food);
            proof {
                let ob = old(self).snake.body@;
                let nb = self.snake.body@;
                assert forall|i: int, j: int|
                    0 <= i < nb.len() && 0 <= j < nb.len() && i != j implies nb[i] != nb[j] by {
                    if i == 0 {
                        assert(nb[j] == ob[j - 1]);
                        assert(ob.contains(ob[j - 1]));
                    } else if j == 0 {
                        assert(nb[i] == ob[i - 1]);
                        assert(ob.contains(ob[i - 1]));
                    } else {
                        assert(nb[i] == ob[i - 1] && nb[j] == ob[j - 1]);
                    }
                }
                assert(nb.no_duplicates());
                assert forall|i: int| 0 <= i < nb.len() implies 0 <= (#[trigger] nb[i]).x < 8
                    && 0 <= nb[i].y < 8 by {
                    if i > 0 {
                        assert(nb[i] == ob[i - 1]);
                        assert(old(self).in_bounds(ob[i - 1]));
                    }
                }
                lemma_body_capacity(nb);
            }
            self.calc_score();
            if self.snake.body.len() < 64 {
                self.create_food(rng);
            } else {
                self.game_over = true;
            }
        } else if self.outside(next_head) || self.snake.overlapping(next_head) {
            self.game_over = true;
        } else {
            proof {
                assert(next_head != old(self).snake.head);
                let ob = old(self).snake.body@;
                assert(forall|j: int| 0 <= j < ob.len() - 1 ==> ob.drop_last()[j] == ob[j]);
            }
            self.snake.advance();
            proof {
                let ob = old(self).snake.body@;
                let nb = self.snake.body@;
                assert forall|i: int, j: int|
                    0 <= i < nb.len() && 0 <= j < nb.len() && i != j implies nb[i] != nb[j] by {
                    if i == 0 {
                        assert(nb[j] == ob[j - 1]);
                    } else if j == 0 {
                        assert(nb[i] == ob[i - 1]);
                    } else {
                        assert(nb[i] == ob[i - 1] && nb[j] == ob[j - 1]);
                    }
                }
                assert(nb.no_duplicates());
                assert forall|i: int| 0 <= i < nb.len() implies nb[i] != self.food by {
                    if i > 0 {
                        assert(nb[i] == ob[i - 1]);
                        assert(ob.contains(ob[i - 1]));
                    }
                }
                assert(!nb.contains(self.food));
            }
        }
    }

    /// Render one frame: clear both buffers, rasterize the body into the
    /// display buffer, and light the food pixel in its row.
    pub fn draw(&self, ledc: &mut LedControl)
        requires
            self.wf(),
        ensures
            forall|x: u8, y: u8|
                x < 8 && y < 8 ==> (#[trigger] px(final(ledc).buf@[y as int], x)
                    <==> (self.snake.body@.contains(Position { x: x as i8, y: y as i8 }) || (
                    self.food.x == x as i8 && self.food.y == y as i8))),
            forall|i: int| 0 <= i < 8 ==> final(ledc).buf_work@[i] == 0u8,
            final(ledc).gd == old(ledc).gd,
    {
        ledc.clear();
        ledc.clear_work();
        let mut tmp = self.snake.as_bytes();
        let fx = self.food.x as u8;
        let fy = self.food.y as usize;
        proof {
            lemma_px_masks(tmp@[fy as int], fx);
        }
        tmp[fy] = tmp[fy] | (1u8 << (7 - fx));
        ledc.upload_raw(tmp);
    }

    /// Render the final score as two digit glyphs, composed in the
    /// staging buffer and presented to the display buffer.
    pub fn draw_score(&self, ledc: &mut LedControl)
        requires
            self.score < 100,
        ensures
            forall|i: int| 0 <= i < 8 ==> final(ledc).buf@[i] == score_row(self.score, i),
            forall|i: int| 0 <= i < 8 ==> final(ledc).buf_work@[i] == score_row(self.score, i),
            final(ledc).gd == old(ledc).gd,
    {
        ledc.clear();
        let dn = self.score / 10;
        let sn = self.score % 10;
        let dng = num_map(dn);
        let mut sng = num_map(sn);
        ledc.bitmap_work(dng);
        let mut i: usize = 0;
        while i < 8
            invariant
                0 <= i <= 8,
                forall|j: int| 0 <= j < i ==> sng@[j] == num_map_spec(sn)[j] >> 4u8,
                forall|j: int| i <= j < 8 ==> sng@[j] == num_map_spec(sn)[j],
            decreases 8 - i,
        {
            sng[i] = sng[i] >> 4;
            i = i + 1;
        }
        let mut i2: usize = 0;
        while i2 < 8
            invariant
                0 <= i2 <= 8,
                forall|j: int| 0 <= j < 8 ==> sng@[j] == num_map_spec(sn)[j] >> 4u8,
                forall|j: int|
                    0 <= j < i2 ==> ledc.buf_work@[j] == (num_map_spec(dn)[j] | (num_map_spec(
                        sn,
                    )[j] >> 4u8)),
                forall|j: int| i2 <= j < 8 ==> ledc.buf_work@[j] == num_map_spec(dn)[j],
                ledc.gd == old(ledc).gd,
            decreases 8 - i2,
        {
            ledc.buf_work[i2] = ledc.buf_work[i2] | sng[i2];
            i2 = i2 + 1;
        }
        let mut i3: usize = 0;
        while i3 < 8
            invariant
                0 <= i3 <= 8,
                dn == self.score / 10,
                sn == self.score % 10,
                forall|j: int| 0 <= j < i3 ==> ledc.buf_work@[j] == score_row(self.score, j),
                forall|j: int|
                    i3 <= j < 8 ==> ledc.buf_work@[j] == (num_map_spec(dn)[j] | (num_map_spec(
                        sn,
                    )[j] >> 4u8)),
                ledc.gd == old(ledc).gd,
            decreases 8 - i3,
        {
            ledc.buf_work[i3] = ledc.buf_work[i3] >> 1;
            i3 = i3 + 1;
        }
        let rows = ledc.buf_work;
        ledc.upload_raw(rows);
    }
}

} // verus!

