//! The grid simulation engine of a snake game: the board, the snake's
//! body, its heading, the food, and the one-step transition (`tick`).

use vstd::prelude::*;
use std::collections::VecDeque;
use rand::Rng;

verus! {

/// Relies on rand::Rng::gen_range over `low..high`: it panics on an
/// empty range and otherwise returns a uniform draw from the range.
#[verifier::external_body]
fn random_range(low: usize, high: usize) -> (r: usize)
    requires
        low < high,
    ensures
        low <= r < high,
{
    rand::thread_rng().gen_range(low..high)
}

/// A cell of the board: x then y, both zero-based.
pub type Position = (usize, usize);

/// A cardinal heading for the snake.
#[derive(Clone, Copy, Debug, PartialEq, Eq, Structural)]
pub enum Direction {
    Top,
    Right,
    Bottom,
    Left,
}

/// The direct reverse of a heading.
pub open spec fn opposite(d: Direction) -> Direction {
    match d {
        Direction::Top => Direction::Bottom,
        Direction::Right => Direction::Left,
        Direction::Bottom => Direction::Top,
        Direction::Left => Direction::Right,
    }
}

/// Where one step from `p` in heading `d` lands, over the integers:
/// a negative coordinate means the step left the board across the top
/// or left edge.
pub open spec fn step_target(p: Position, d: Direction) -> (int, int) {
    match d {
        Direction::Top => (p.0 as int, p.1 - 1),
        Direction::Right => (p.0 + 1, p.1 as int),
        Direction::Bottom => (p.0 as int, p.1 + 1),
        Direction::Left => (p.0 - 1, p.1 as int),
    }
}

/// The x-coordinate of the single starting segment: two cells short of
/// the right edge, clamped to the left edge on narrow boards.
pub open spec fn initial_head_x(width: usize) -> usize {
    if width >= 2 {
        (width - 2) as usize
    } else {
        0usize
    }
}

/// The x-coordinate of the starting food: near the left edge, clamped
/// onto the board on narrow boards.
pub open spec fn initial_food_x(width: usize) -> usize {
    if width >= 3 {
        2usize
    } else {
        (width - 1) as usize
    }
}

/// The whole state of one game.
pub struct SnakeGame {
    pub width: usize,
    pub height: usize,
    /// The body, head first, tail last.
    pub snake: VecDeque<Position>,
    /// The heading the last tick committed.
    pub direction: Direction,
    /// The heading the next tick will commit: the latest accepted request.
    pub next_direction: Direction,
    pub food: Position,
    pub game_over: bool,
}

impl SnakeGame {
    /// The heading that the next tick will commit: the latest accepted
    /// request since the last tick.
    pub open spec fn pending_direction(self) -> Direction {
        self.next_direction
    }

    /// Whether `p` lies on the board.
    pub open spec fn pos_in_bounds(self, p: Position) -> bool {
        p.0 < self.width && p.1 < self.height
    }

    /// Whether an integer target of `step_target` lies on the board.
    pub open spec fn target_in_bounds(self, t: (int, int)) -> bool {
        0 <= t.0 < self.width && 0 <= t.1 < self.height
    }

    /// Well-formedness: a non-degenerate board, every segment and the
    /// food on the board, at least one segment, and no segment twice.
    pub open spec fn wf(self) -> bool {
        &&& self.width >= 1
        &&& self.height >= 1
        &&& self.snake@.len() >= 1
        &&& forall|i: int|
            0 <= i < self.snake@.len() ==> self.pos_in_bounds(#[trigger] self.snake@[i])
        &&& self.snake@.no_duplicates()
        &&& self.pos_in_bounds(self.food)
    }

    /// Creates a game on a `width` by `height` board: a single-segment
    /// snake near the right edge, heading Left, food near the left
    /// edge, both at mid-height.
    pub fn new(width: usize, height: usize) -> (game: SnakeGame)
        requires
            width >= 1,
            height >= 1,
        ensures
            game.wf(),
            game.width == width,
            game.height == height,
            game.snake@ == seq![(initial_head_x(width), (height / 2) as usize)],
            game.direction == Direction::Left,
            game.pending_direction() == Direction::Left,
            game.food == (initial_food_x(width), (height / 2) as usize),
            !game.game_over,
    {
        let head_x: usize = if width >= 2 { width - 2 } else { 0 };
        let food_x: usize = if width >= 3 { 2 } else { width - 1 };
        let mid: usize = height / 2;
        let mut snake: VecDeque<Position> = VecDeque::new();
        snake.push_back((head_x, mid));
        SnakeGame {
            width,
            height,
            snake,
            direction: Direction::Left,
            next_direction: Direction::Left,
            food: (food_x, mid),
            game_over: false,
        }
    }

    /// The integer cell one step ahead of the head in the pending
    /// heading; meaningful only while the body is non-empty.
    pub open spec fn candidate(self) -> (int, int) {
        step_target(self.snake@[0], self.pending_direction())
    }

    /// The candidate cell as a board position; meaningful only when
    /// `candidate()` lies on the board.
    pub open spec fn candidate_pos(self) -> Position {
        (self.candidate().0 as usize, self.candidate().1 as usize)
    }

    /// Whether the next step ends the game: the candidate cell is off
    /// the board, or a segment of the body already occupies it.
    pub open spec fn candidate_blocked(self) -> bool {
        !self.target_in_bounds(self.candidate()) || self.snake@.contains(self.candidate_pos())
    }

    /// No part of the state differs between `pre` and `post`.
    pub open spec fn unchanged(pre: SnakeGame, post: SnakeGame) -> bool {
        &&& post.width == pre.width
        &&& post.height == pre.height
        &&& post.snake@ == pre.snake@
        &&& post.direction == pre.direction
        &&& post.pending_direction() == pre.pending_direction()
        &&& post.food == pre.food
        &&& post.game_over == pre.game_over
    }

    /// The effect of one `tick` call: `post` is a state the engine may
    /// reach from `pre`. Fresh food is drawn at random, so when food is
    /// eaten more than one `post` fits a given `pre`.
    pub open spec fn tick_rel(pre: SnakeGame, post: SnakeGame) -> bool {
        if pre.game_over || pre.snake@.len() == 0 {
            Self::unchanged(pre, post)
        } else {
            let d = pre.pending_direction();
            &&& post.width == pre.width
            &&& post.height == pre.height
            &&& post.direction == d
            &&& post.pending_direction() == d
            &&& if pre.candidate_blocked() {
                &&& post.game_over
                &&& post.snake@ == pre.snake@
                &&& post.food == pre.food
            } else {
                let nh = pre.candidate_pos();
                &&& !post.game_over
                &&& if nh == pre.food {
                    &&& post.snake@ == seq![nh] + pre.snake@
                    &&& pre.pos_in_bounds(post.food)
                    &&& !pre.snake@.contains(post.food)
                } else {
                    &&& post.snake@ == seq![nh] + pre.snake@.drop_last()
                    &&& post.food == pre.food
                }
            }
        }
    }

    /// Whether a requested heading is accepted by `change_direction`:
    /// it must be neither the current heading nor its direct reverse.
    pub open spec fn accepts(self, requested: Direction) -> bool {
        requested != self.direction && requested != opposite(self.direction)
    }

    /// The effect of one `change_direction(requested)` call: only the
    /// pending heading may move, and only to an accepted request.
    pub open spec fn change_rel(pre: SnakeGame, post: SnakeGame, requested: Direction) -> bool {
        &&& post.width == pre.width
        &&& post.height == pre.height
        &&& post.snake@ == pre.snake@
        &&& post.direction == pre.direction
        &&& post.food == pre.food
        &&& post.game_over == pre.game_over
        &&& post.pending_direction() == if pre.accepts(requested) {
            requested
        } else {
            pre.pending_direction()
        }
    }

    /// Requests a new heading for the next tick. The request is kept
    /// only if it is neither the current heading nor its direct
    /// reverse; a rejected request is silently ignored.
    pub fn change_direction(&mut self, direction: Direction)
        ensures
            Self::change_rel(*old(self), *final(self), direction),
            old(self).wf() ==> final(self).wf(),
    {
        match (self.direction, direction) {
            (Direction::Top, Direction::Top)
            | (Direction::Top, Direction::Bottom)
            | (Direction::Right, Direction::Right)
            | (Direction::Right, Direction::Left)
            | (Direction::Bottom, Direction::Bottom)
            | (Direction::Bottom, Direction::Top)
            | (Direction::Left, Direction::Left)
            | (Direction::Left, Direction::Right) => {}
            (_, direction) => self.next_direction = direction,
        }
    }

    /// True iff both coordinates of `pos` are within the board.
    pub fn is_valid(&self, pos: Position) -> (r: bool)
        ensures
            r == self.pos_in_bounds(pos),
    {
        pos.0 < self.width && pos.1 < self.height
    }

    /// True iff some segment of the body occupies `p`.
    fn snake_contains(&self, p: Position) -> (r: bool)
        ensures
            r == self.snake@.contains(p),
    {
        let n = self.snake.len();
        let mut i: usize = 0;
        while i < n
            invariant
                n == self.snake@.len(),
                i <= n,
                forall|j: int| 0 <= j < i ==> self.snake@[j] != p,
            decreases n - i,
        {
            let q = self.snake[i];
            if q.0 == p.0 && q.1 == p.1 {
                assert(self.snake@.contains(p));
                return true;
            }
            i += 1;
        }
        false
    }

    /// Every board cell that no segment occupies, in row-major order.
    fn free_positions(&self) -> (free: Vec<Position>)
        ensures
            forall|k: int|
                0 <= k < free@.len() ==> self.pos_in_bounds(#[trigger] free@[k])
                    && !self.snake@.contains(free@[k]),
            forall|p: Position|
                self.pos_in_bounds(p) && !self.snake@.contains(p) ==> free@.contains(p),
    {
        let mut free: Vec<Position> = Vec::new();
        let mut y: usize = 0;
        while y < self.height
            invariant
                y <= self.height,
                forall|k: int|
                    0 <= k < free@.len() ==> self.pos_in_bounds(#[trigger] free@[k])
                        && !self.snake@.contains(free@[k]),
                forall|p: Position|
                    p.0 < self.width && p.1 < y && !self.snake@.contains(p)
                        ==> free@.contains(p),
            decreases self.height - y,
        {
            let mut x: usize = 0;
            while x < self.width
                invariant
                    x <= self.width,
                    y < self.height,
                    forall|k: int|
                        0 <= k < free@.len() ==> self.pos_in_bounds(#[trigger] free@[k])
                            && !self.snake@.contains(free@[k]),
                    forall|p: Position|
                        p.0 < self.width && p.1 < y && !self.snake@.contains(p)
                            ==> free@.contains(p),
                    forall|p: Position|
                        p.0 < x && p.1 == y && !self.snake@.contains(p)
                            ==> free@.contains(p),
                decreases self.width - x,
            {
                let ghost prev = free@;
                if !self.snake_contains((x, y)) {
                    free.push((x, y));
                    proof {
                        assert(free@[free@.len() - 1] == (x, y));
                        assert(free@.contains((x, y)));
                    }
                }
                proof {
                    assert forall|p: Position| prev.contains(p) implies free@.contains(p) by {
                        let j = choose|j: int| 0 <= j < prev.len() && prev[j] == p;
                        assert(free@[j] == p);
                    }
                    assert forall|p: Position|
                        p.0 < self.width && p.1 < y && !self.snake@.contains(p)
                            implies free@.contains(p) by {
                        assert(prev.contains(p));
                    }
                    assert forall|p: Position|
                        p.0 < x + 1 && p.1 == y && !self.snake@.contains(p)
                            implies free@.contains(p) by {
                        if p.0 < x {
                            assert(prev.contains(p));
                        } else {
                            assert(p == (x, y));
                            assert(free@.contains(p));
                        }
                    }
                }
                x += 1;
            }
            y += 1;
        }
        free
    }

    /// Advances the game one step: commits the pending heading, then
    /// moves the head one cell that way. A candidate cell off the board
    /// (a step across the top or left edge is detected as such, never
    /// as an arithmetic underflow) or on the body ends the game; the
    /// food cell grows the body by one and fresh food is drawn from the
    /// free cells; any other cell shifts the body by one. The candidate
    /// cell itself is never occupied when food is eaten, so a free cell
    /// for the fresh food always exists.
    pub fn tick(&mut self)
        requires
            old(self).wf(),
        ensures
            final(self).wf(),
            Self::tick_rel(*old(self), *final(self)),
    {
        if self.game_over || self.snake.len() == 0 {
            return;
        }

        self.direction = self.next_direction;

        proof {
            assert(old(self).pos_in_bounds(old(self).snake@[0]));
        }
        let head = self.snake[0];
        let new_head_opt: Option<Position> = match self.direction {
            Direction::Top => if head.1 > 0 { Some((head.0, head.1 - 1)) } else { None },
            Direction::Right => Some((head.0 + 1, head.1)),
            Direction::Bottom => Some((head.0, head.1 + 1)),
            Direction::Left => if head.0 > 0 { Some((head.0 - 1, head.1)) } else { None },
        };

        match new_head_opt {
            None => {
                self.game_over = true;
            },
            Some(nh) => {
                if !self.is_valid(nh) || self.snake_contains(nh) {
                    self.game_over = true;
                } else {
                    let ghost pre = *old(self);
                    if !(nh.0 == self.food.0 && nh.1 == self.food.1) {
                        let _tail = self.snake.pop_back();
                    } else {
                        let free = self.free_positions();
                        proof {
                            assert(free@.contains(nh));
                        }
                        if free.len() == 0 {
                            self.game_over = true;
                            return;
                        }
                        let idx = random_range(0, free.len());
                        self.food = free[idx];
                    }
                    self.snake.push_front(nh);
                    proof {
                        let s = self.snake@;
                        assert forall|i: int|
                            0 <= i < s.len() implies self.pos_in_bounds(#[trigger] s[i]) by {
                            if i > 0 {
                                assert(pre.pos_in_bounds(pre.snake@[i - 1]));
                            }
                        }
                        assert(s.no_duplicates()) by {
                            assert forall|i: int, j: int|
                                0 <= i < s.len() && 0 <= j < s.len() && i != j
                                    implies s[i] != s[j] by {
                                if i > 0 && j > 0 {
                                    assert(pre.snake@[i - 1] != pre.snake@[j - 1]);
                                }
                            }
                        }
                    }
                }
            },
        }
    }
}

/// Law: once the game is over, a tick changes nothing — the body, the
/// food, both headings and the flag all stay as they were, however
/// often `tick` is called.
pub proof fn lemma_tick_noop_after_game_over(pre: SnakeGame, post: SnakeGame)
    requires
        pre.game_over,
        SnakeGame::tick_rel(pre, post),
    ensures
        SnakeGame::unchanged(pre, post),
{
}

/// Law: on a single-row board a tick heading Top or Bottom, and on a
/// single-column board a tick heading Left or Right, runs off the board
/// at once: the game ends and the body and food stay as they were.
pub proof fn lemma_boundary_collision(pre: SnakeGame, post: SnakeGame)
    requires
        pre.wf(),
        !pre.game_over,
        SnakeGame::tick_rel(pre, post),
        (pre.height == 1 && (pre.pending_direction() == Direction::Top
            || pre.pending_direction() == Direction::Bottom))
        || (pre.width == 1 && (pre.pending_direction() == Direction::Left
            || pre.pending_direction() == Direction::Right)),
    ensures
        post.game_over,
        post.snake@ == pre.snake@,
        post.food == pre.food,
{
    assert(pre.pos_in_bounds(pre.snake@[0]));
}

/// Law: a tick whose candidate cell is occupied by the snake's own body
/// ends the game and leaves the body as it was. (Only a body of length
/// at least three can block its own head, since a direct reversal is
/// rejected by `change_direction`.)
pub proof fn lemma_self_collision(pre: SnakeGame, post: SnakeGame)
    requires
        !pre.game_over,
        pre.snake@.len() >= 1,
        pre.snake@.contains(pre.candidate_pos()),
        SnakeGame::tick_rel(pre, post),
    ensures
        post.game_over,
        post.snake@ == pre.snake@,
        post.food == pre.food,
{
}

/// Law: requesting the exact reverse of the current heading is ignored,
/// and a tick after such a request still commits the heading that was
/// already pending.
pub proof fn lemma_reversal_rejected(s0: SnakeGame, s1: SnakeGame, s2: SnakeGame, requested: Direction)
    requires
        requested == opposite(s0.direction),
        SnakeGame::change_rel(s0, s1, requested),
        SnakeGame::tick_rel(s1, s2),
        !s0.game_over,
        s0.snake@.len() >= 1,
    ensures
        s1.pending_direction() == s0.pending_direction(),
        s2.direction == s0.pending_direction(),
{
}

/// Law: a tick that lands the head on the food grows the body by
/// exactly one, and the fresh food lies on the board, on a cell no
/// segment occupied before the tick.
pub proof fn lemma_growth_on_food(pre: SnakeGame, post: SnakeGame)
    requires
        !pre.game_over,
        pre.snake@.len() >= 1,
        !pre.candidate_blocked(),
        pre.candidate_pos() == pre.food,
        SnakeGame::tick_rel(pre, post),
    ensures
        post.snake@.len() == pre.snake@.len() + 1,
        pre.pos_in_bounds(post.food),
        !pre.snake@.contains(post.food),
        !post.game_over,
{
}

/// Law: a tick that lands the head anywhere but the food keeps the
/// body's length exactly as it was.
pub proof fn lemma_steady_state_length(pre: SnakeGame, post: SnakeGame)
    requires
        !pre.game_over,
        pre.snake@.len() >= 1,
        !pre.candidate_blocked(),
        pre.candidate_pos() != pre.food,
        SnakeGame::tick_rel(pre, post),
    ensures
        post.snake@.len() == pre.snake@.len(),
        post.food == pre.food,
        !post.game_over,
{
}

/// Law: the game-over state is terminal. However a tick and a direction
/// change are interleaved after it, the flag stays set and the body,
/// the food and the committed heading stay as they were.
pub proof fn lemma_game_over_is_terminal(
    pre: SnakeGame,
    mid: SnakeGame,
    post: SnakeGame,
    requested: Direction,
)
    requires
        pre.game_over,
        SnakeGame::tick_rel(pre, mid),
        SnakeGame::change_rel(mid, post, requested),
    ensures
        post.game_over,
        post.snake@ == pre.snake@,
        post.food == pre.food,
        post.direction == pre.direction,
{
}

/// Row-major encoding of a board cell is injective over cells whose
/// x-coordinate is within a row of width `w`.
proof fn lemma_row_major_injective(w: int, q1: Position, q2: Position)
    requires
        q1.0 < w,
        q2.0 < w,
        q1.1 * w + q1.0 == q2.1 * w + q2.0,
    ensures
        q1 == q2,
{
    assert(q1.1 == q2.1 && q1.0 == q2.0) by (nonlinear_arith)
        requires
            q1.0 >= 0,
            q2.0 >= 0,
            q1.0 < w,
            q2.0 < w,
            q1.1 >= 0,
            q2.1 >= 0,
            q1.1 * w + q1.0 == q2.1 * w + q2.0,
    ;
}

/// Row-major encoding of a board cell lands in `[0, w * h)`.
proof fn lemma_row_major_in_range(w: int, h: int, q: Position)
    requires
        q.0 < w,
        q.1 < h,
    ensures
        0 <= q.1 * w + q.0 < w * h,
{
    assert(0 <= q.1 * w + q.0 < w * h) by (nonlinear_arith)
        requires
            q.0 >= 0,
            q.1 >= 0,
            q.0 < w,
            q.1 < h,
    ;
}

/// Pigeonhole: a body with as many segments as the board has cells
/// covers every cell of the board.
proof fn lemma_full_snake_covers(g: SnakeGame, p: Position)
    requires
        g.wf(),
        g.snake@.len() == g.width * g.height,
        g.pos_in_bounds(p),
    ensures
        g.snake@.contains(p),
{
    broadcast use vstd::seq_lib::seq_to_set_is_finite;

    let w = g.width as int;
    let h = g.height as int;
    let enc = |q: Position| q.1 * w + q.0;
    let codes = g.snake@.map_values(enc);

    assert forall|i: int, j: int|
        0 <= i < codes.len() && 0 <= j < codes.len() && i != j
            implies codes[i] != codes[j] by {
        assert(g.pos_in_bounds(g.snake@[i]));
        assert(g.pos_in_bounds(g.snake@[j]));
        if codes[i] == codes[j] {
            lemma_row_major_injective(w, g.snake@[i], g.snake@[j]);
        }
    }
    codes.unique_seq_to_set();

    let taken = codes.to_set();
    let cells = vstd::set_lib::set_int_range(0, w * h);
    vstd::set_lib::lemma_int_range(0, w * h);

    assert forall|c: int| taken.contains(c) implies cells.contains(c) by {
        let k = choose|k: int| 0 <= k < codes.len() && codes[k] == c;
        assert(g.pos_in_bounds(g.snake@[k]));
        lemma_row_major_in_range(w, h, g.snake@[k]);
    }
    vstd::set_lib::lemma_subset_equality(taken, cells);

    lemma_row_major_in_range(w, h, p);
    let pc = enc(p);
    assert(cells.contains(pc));
    assert(taken.contains(pc));
    let k = choose|k: int| 0 <= k < codes.len() && codes[k] == pc;
    assert(g.pos_in_bounds(g.snake@[k]));
    lemma_row_major_injective(w, g.snake@[k], p);
    assert(g.snake@[k] == p);
}

/// Law: once the body occupies every cell of the board, the next tick
/// ends the game and leaves the body and food as they were: every
/// candidate cell is off the board or on the body.
pub proof fn lemma_full_board_tick(pre: SnakeGame, post: SnakeGame)
    requires
        pre.wf(),
        !pre.game_over,
        pre.snake@.len() == pre.width * pre.height,
        SnakeGame::tick_rel(pre, post),
    ensures
        post.game_over,
        post.snake@ == pre.snake@,
        post.food == pre.food,
{
    if pre.target_in_bounds(pre.candidate()) {
        lemma_full_snake_covers(pre, pre.candidate_pos());
    }
}

/// Law: eating the food on the board's last free cell fills the board.
/// At that moment the cell the head is about to take is itself still
/// free, so fresh food is drawn all the same (never from an empty set
/// of cells), and it is the tick after that one that ends the game.
pub proof fn lemma_board_full_after_last_food(pre: SnakeGame, post: SnakeGame, after: SnakeGame)
    requires
        pre.wf(),
        !pre.game_over,
        !pre.candidate_blocked(),
        pre.candidate_pos() == pre.food,
        pre.snake@.len() + 1 == pre.width * pre.height,
        SnakeGame::tick_rel(pre, post),
        post.wf(),
        SnakeGame::tick_rel(post, after),
    ensures
        post.snake@.len() == pre.width * pre.height,
        !post.game_over,
        after.game_over,
        after.snake@ == post.snake@,
{
    lemma_growth_on_food(pre, post);
    lemma_full_board_tick(post, after);
}

} // verus!

