//! The game state and its single step.

use crate::board::{
    cell_at, lemma_board_size_fits, lemma_cell_at_on_board, lemma_free_cell_exists,
    lemma_wrap_edges, next_pos, on_board, step, Direction, Pos,
};
use vstd::prelude::*;

verus! {

/// Random draws made for a new food cell before the first free cell in
/// row-major order is taken instead.
pub const FOOD_DRAW_LIMIT: u32 = 1024;

/// What one tick of the game produced.
#[derive(Clone, Copy, Debug, PartialEq, Eq, Structural)]
pub enum Outcome {
    Continue,
    Victory,
    Death,
}

/// How a cell is to be drawn.
#[derive(Clone, Copy, Debug, PartialEq, Eq, Structural)]
pub enum CellState {
    Empty,
    SnakeBody,
    Food,
}

/// A cell whose look changed during a tick.
#[derive(Clone, Copy, Debug, PartialEq, Eq, Structural)]
pub struct CellChange {
    pub pos: Pos,
    pub state: CellState,
}

/// The result of one tick: its outcome and the cell changes, to be applied in order.
pub struct Step {
    pub outcome: Outcome,
    pub changes: Vec<CellChange>,
}

/// Why a game could not be set up.
#[derive(Clone, Copy, Debug, PartialEq, Eq, Structural)]
pub enum SetupError {
    /// A side of the board is shorter than two cells.
    BoardDimensions,
    /// The initial snake has no cells.
    EmptyBody,
    /// A cell of the initial snake lies off the board.
    BodyOffBoard,
    /// The initial snake holds a cell twice.
    BodyOverlaps,
    /// The board has no free cell left beside the initial snake.
    BoardTooSmall,
    /// The food cell lies off the board or on the snake.
    FoodMisplaced,
}

/// Whether every cell of `body` lies on a `w` by `h` board.
pub open spec fn all_on_board(body: Seq<Pos>, w: int, h: int) -> bool {
    forall|i: int| 0 <= i < body.len() ==> on_board(#[trigger] body[i], w, h)
}

/// The first reason, if any, why `body` cannot start a game on a `w` by `h` board.
pub open spec fn setup_error(w: int, h: int, body: Seq<Pos>) -> Option<SetupError> {
    if w < 2 || h < 2 {
        Some(SetupError::BoardDimensions)
    } else if body.len() == 0 {
        Some(SetupError::EmptyBody)
    } else if !all_on_board(body, w, h) {
        Some(SetupError::BodyOffBoard)
    } else if !body.no_duplicates() {
        Some(SetupError::BodyOverlaps)
    } else if body.len() >= w * h {
        Some(SetupError::BoardTooSmall)
    } else {
        None
    }
}

/// The snake, its direction and the food on a board of fixed size.
/// `body[0]` is the tail and the last cell is the head.
pub struct GameState {
    pub width: u32,
    pub height: u32,
    pub body: Vec<Pos>,
    pub dir: Direction,
    pub food: Pos,
}

/// Whether `body` holds `p`.
pub fn occupies(body: &Vec<Pos>, p: Pos) -> (r: bool)
    ensures
        r == body@.contains(p),
{
    let mut i: usize = 0;
    while i < body.len()
        invariant
            0 <= i <= body@.len(),
            forall|j: int| 0 <= j < i ==> body@[j] != p,
        decreases body@.len() - i,
    {
        if body[i] == p {
            return true;
        }
        i = i + 1;
    }
    false
}

/// The food cell that the random values `rx` and `ry` point at.
pub fn food_candidate(rx: u32, ry: u32, width: u32, height: u32) -> (r: Pos)
    requires
        0 < width,
        0 < height,
    ensures
        r == (Pos { x: rx % width, y: ry % height }),
        on_board(r, width as int, height as int),
{
    Pos { x: rx % width, y: ry % height }
}

/// The first cell in row-major order that `body` leaves free.
pub fn first_free_cell(body: &Vec<Pos>, width: u32, height: u32) -> (r: Pos)
    requires
        0 < width,
        0 < height,
        body@.no_duplicates(),
        body@.len() < width * height,
    ensures
        exists|i: int|
            0 <= i < width * height && r == cell_at(i, width as int) && (forall|j: int|
                0 <= j < i ==> body@.contains(#[trigger] cell_at(j, width as int))),
        !body@.contains(r),
        on_board(r, width as int, height as int),
{
    proof {
        lemma_free_cell_exists(body@, width as int, height as int);
        lemma_board_size_fits(width, height);
    }
    let total: u64 = width as u64 * height as u64;
    let mut i: u64 = 0;
    while i < total
        invariant
            0 < width,
            0 < height,
            total == width * height,
            0 <= i <= total,
            forall|j: int| 0 <= j < i ==> body@.contains(#[trigger] cell_at(j, width as int)),
            exists|k: int| 0 <= k < width * height && !body@.contains(#[trigger] cell_at(k, width as int)),
        decreases total - i,
    {
        proof {
            lemma_cell_at_on_board(i as int, width as int, height as int);
        }
        let c = Pos { x: (i % width as u64) as u32, y: (i / width as u64) as u32 };
        assert(c == cell_at(i as int, width as int));
        if !occupies(body, c) {
            return c;
        }
        i = i + 1;
    }
    proof {
        let k = choose|k: int| 0 <= k < width * height && !body@.contains(#[trigger] cell_at(k, width as int));
        assert(body@.contains(cell_at(k, width as int)));
    }
    Pos { x: 0, y: 0 }
}

/// Relies on rand::random::<u32>: a freshly drawn value; nothing is known of it.
#[verifier::external_body]
fn draw_u32() -> (r: u32) {
    rand::random::<u32>()
}

/// A food cell off the snake, drawn at random until a free cell is hit.
fn roll_food(body: &Vec<Pos>, width: u32, height: u32) -> (r: Pos)
    requires
        0 < width,
        0 < height,
        body@.no_duplicates(),
        body@.len() < width * height,
    ensures
        on_board(r, width as int, height as int),
        !body@.contains(r),
{
    let mut tries: u32 = 0;
    while tries < FOOD_DRAW_LIMIT
        invariant
            0 < width,
            0 < height,
        decreases FOOD_DRAW_LIMIT - tries,
    {
        let c = food_candidate(draw_u32(), draw_u32(), width, height);
        if !occupies(body, c) {
            return c;
        }
        tries = tries + 1;
    }
    first_free_cell(body, width, height)
}

/// Why `body` cannot start a game on a `width` by `height` board, if it cannot.
pub fn check_setup(width: u32, height: u32, body: &Vec<Pos>) -> (r: Option<SetupError>)
    ensures
        r == setup_error(width as int, height as int, body@),
{
    if width < 2 || height < 2 {
        return Some(SetupError::BoardDimensions);
    }
    if body.len() == 0 {
        return Some(SetupError::EmptyBody);
    }
    let mut i: usize = 0;
    while i < body.len()
        invariant
            2 <= width,
            2 <= height,
            0 <= i <= body@.len(),
            forall|j: int| 0 <= j < i ==> on_board(#[trigger] body@[j], width as int, height as int),
        decreases body@.len() - i,
    {
        if body[i].x >= width || body[i].y >= height {
            assert(!on_board(body@[i as int], width as int, height as int));
            assert(!all_on_board(body@, width as int, height as int));
            return Some(SetupError::BodyOffBoard);
        }
        i = i + 1;
    }
    assert(all_on_board(body@, width as int, height as int));
    let mut a: usize = 1;
    while a < body.len()
        invariant
            2 <= width,
            2 <= height,
            all_on_board(body@, width as int, height as int),
            1 <= a <= body@.len(),
            forall|j: int, k: int| 0 <= j < k < a ==> body@[j] != body@[k],
        decreases body@.len() - a,
    {
        let mut b: usize = 0;
        while b < a
            invariant
                2 <= width,
                2 <= height,
                all_on_board(body@, width as int, height as int),
                1 <= a < body@.len(),
                0 <= b <= a,
                forall|j: int, k: int| 0 <= j < k < a ==> body@[j] != body@[k],
                forall|j: int| 0 <= j < b ==> body@[j] != body@[a as int],
            decreases a - b,
        {
            if body[b] == body[a] {
                assert(!body@.no_duplicates());
                return Some(SetupError::BodyOverlaps);
            }
            b = b + 1;
        }
        a = a + 1;
    }
    assert(body@.no_duplicates()) by {
        assert forall|j: int, k: int| 0 <= j < body@.len() && 0 <= k < body@.len() && j != k implies body@[j] != body@[k] by {
            if j > k {
                assert(body@[k] != body@[j]);
            }
        }
    }
    proof {
        lemma_board_size_fits(width, height);
    }
    if body.len() as u64 >= width as u64 * height as u64 {
        return Some(SetupError::BoardTooSmall);
    }
    None
}

/// What one tick does to `pre`, giving `post`, `outcome` and `changes`.
pub open spec fn tick_step(pre: GameState, post: GameState, outcome: Outcome, changes: Seq<CellChange>) -> bool {
    let head = pre.next_head();
    &&& post.width == pre.width
    &&& post.height == pre.height
    &&& post.dir == pre.dir
    &&& if pre.body@.len() == pre.cells() - 1 {
        &&& outcome == Outcome::Victory
        &&& post.body@ == pre.body@
        &&& post.food == pre.food
        &&& changes == seq![CellChange { pos: head, state: CellState::SnakeBody }]
    } else if pre.body@.contains(head) {
        &&& outcome == Outcome::Death
        &&& post.body@ == pre.body@
        &&& post.food == pre.food
        &&& changes.len() == 0
    } else if head == pre.food {
        &&& outcome == Outcome::Continue
        &&& post.body@ == pre.body@.push(head)
        &&& changes == seq![
            CellChange { pos: head, state: CellState::SnakeBody },
            CellChange { pos: post.food, state: CellState::Food },
        ]
    } else {
        &&& outcome == Outcome::Continue
        &&& post.body@ == pre.body@.push(head).drop_first()
        &&& post.food == pre.food
        &&& changes == seq![
            CellChange { pos: head, state: CellState::SnakeBody },
            CellChange { pos: pre.body@[0], state: CellState::Empty },
        ]
    }
}

/// Every tick keeps the whole snake on the board.
pub proof fn lemma_tick_stays_on_board(pre: GameState, post: GameState, outcome: Outcome, changes: Seq<CellChange>)
    requires
        pre.wf(),
        tick_step(pre, post, outcome, changes),
    ensures
        all_on_board(post.body@, post.width as int, post.height as int),
{
    let head = pre.head();
    assert(on_board(pre.body@[pre.body@.len() - 1], pre.width as int, pre.height as int));
    lemma_wrap_edges(pre.width, pre.height, head.x, head.y);
    assert(on_board(next_pos(Pos { x: head.x, y: head.y }, pre.dir, pre.width as int, pre.height as int), pre.width as int, pre.height as int));
    let grown = pre.body@.push(pre.next_head());
    assert(all_on_board(grown, pre.width as int, pre.height as int));
    assert forall|i: int| 0 <= i < grown.drop_first().len() implies on_board(
        #[trigger] grown.drop_first()[i],
        pre.width as int,
        pre.height as int,
    ) by {
        assert(on_board(grown[i + 1], pre.width as int, pre.height as int));
    }
}

/// A tick whose new head lands on the snake ends in death and leaves the
/// snake as it was, unless that tick wins the game first.
pub proof fn lemma_collision_is_death(pre: GameState, post: GameState, outcome: Outcome, changes: Seq<CellChange>)
    requires
        pre.wf(),
        tick_step(pre, post, outcome, changes),
        pre.body@.contains(pre.next_head()),
        pre.body@.len() != pre.cells() - 1,
    ensures
        outcome == Outcome::Death,
        post.body@ == pre.body@,
        post.body@.len() == pre.body@.len(),
{
}

/// A snake one cell short of filling the board wins on its next tick,
/// whatever its direction and wherever the food is.
pub proof fn lemma_full_board_wins(pre: GameState, post: GameState, outcome: Outcome, changes: Seq<CellChange>)
    requires
        pre.wf(),
        tick_step(pre, post, outcome, changes),
        pre.body@.len() == pre.cells() - 1,
    ensures
        outcome == Outcome::Victory,
{
}

/// A tick that neither wins nor dies keeps the snake's length, or adds one
/// exactly when the head reached the food.
pub proof fn lemma_tick_length(pre: GameState, post: GameState, outcome: Outcome, changes: Seq<CellChange>)
    requires
        pre.wf(),
        tick_step(pre, post, outcome, changes),
        outcome == Outcome::Continue,
    ensures
        post.body@.len() == pre.body@.len() + if pre.next_head() == pre.food {
            1int
        } else {
            0int
        },
{
}

impl GameState {
    /// The state invariant: a snake without repeated cells, shorter than the
    /// board, on the board, and food on a free cell of the board.
    pub open spec fn wf(&self) -> bool {
        &&& setup_error(self.width as int, self.height as int, self.body@).is_none()
        &&& on_board(self.food, self.width as int, self.height as int)
        &&& !self.body@.contains(self.food)
    }

    /// The number of cells of the board.
    pub open spec fn cells(&self) -> int {
        self.width * self.height
    }

    /// The head's cell.
    pub open spec fn head(&self) -> Pos {
        self.body@.last()
    }

    /// The cell that the head moves to on the next tick.
    pub open spec fn next_head(&self) -> Pos {
        next_pos(self.head(), self.dir, self.width as int, self.height as int)
    }

    /// A game with the given snake and food.
    pub fn with_food(width: u32, height: u32, body: Vec<Pos>, dir: Direction, food: Pos) -> (r: Result<GameState, SetupError>)
        ensures
            match setup_error(width as int, height as int, body@) {
                Some(e) => r == Err::<GameState, SetupError>(e),
                None => if on_board(food, width as int, height as int) && !body@.contains(food) {
                    r.is_ok() && r->Ok_0.wf() && r->Ok_0.width == width && r->Ok_0.height == height
                        && r->Ok_0.body@ == body@ && r->Ok_0.dir == dir && r->Ok_0.food == food
                } else {
                    r == Err::<GameState, SetupError>(SetupError::FoodMisplaced)
                },
            },
    {
        match check_setup(width, height, &body) {
            Some(e) => Err(e),
            None => {
                if food.x >= width || food.y >= height || occupies(&body, food) {
                    Err(SetupError::FoodMisplaced)
                } else {
                    Ok(GameState { width, height, body, dir, food })
                }
            },
        }
    }

    /// A game with the given snake and food on a random free cell.
    pub fn new(width: u32, height: u32, body: Vec<Pos>, dir: Direction) -> (r: Result<GameState, SetupError>)
        ensures
            match setup_error(width as int, height as int, body@) {
                Some(e) => r == Err::<GameState, SetupError>(e),
                None => r.is_ok() && r->Ok_0.wf() && r->Ok_0.width == width && r->Ok_0.height == height
                    && r->Ok_0.body@ == body@ && r->Ok_0.dir == dir,
            },
    {
        match check_setup(width, height, &body) {
            Some(e) => Err(e),
            None => {
                let food = roll_food(&body, width, height);
                Ok(GameState { width, height, body, dir, food })
            },
        }
    }

    /// One tick: move the head one cell in the current direction.
    ///
    /// With one free cell left the game is won and nothing changes. A head that
    /// runs into the snake dies and nothing changes. Otherwise the head is added;
    /// on the food the snake keeps its tail and new food is placed on a free
    /// cell, else the tail is removed.
    pub fn advance(&mut self) -> (r: Step)
        requires
            old(self).wf(),
        ensures
            final(self).wf(),
            tick_step(*old(self), *final(self), r.outcome, r.changes@),
            r.outcome == Outcome::Continue ==> final(self).body@.len() == old(self).body@.len() + if old(
                self,
            ).next_head() == old(self).food {
                1int
            } else {
                0int
            },
            all_on_board(final(self).body@, final(self).width as int, final(self).height as int),
            !final(self).body@.contains(final(self).food),
    {
        let width = self.width;
        let height = self.height;
        let last = self.body.len() - 1;
        assert(on_board(self.body@[last as int], width as int, height as int));
        let head = step(self.body[last], self.dir, width, height);
        proof {
            lemma_board_size_fits(width, height);
        }
        if self.body.len() as u64 == width as u64 * height as u64 - 1 {
            let changes = vec![CellChange { pos: head, state: CellState::SnakeBody }];
            assert(changes@ =~= seq![CellChange { pos: head, state: CellState::SnakeBody }]);
            return Step { outcome: Outcome::Victory, changes };
        }
        if occupies(&self.body, head) {
            return Step { outcome: Outcome::Death, changes: Vec::new() };
        }
        let ghost before = self.body@;
        self.body.push(head);
        proof {
            assert(self.body@ == before.push(head));
            assert forall|j: int, k: int|
                0 <= j < self.body@.len() && 0 <= k < self.body@.len() && j != k implies self.body@[j]
                != self.body@[k] by {
                if j < before.len() && k < before.len() {
                    assert(before[j] != before[k]);
                } else if j < before.len() {
                    assert(before.contains(before[j]));
                } else {
                    assert(before.contains(before[k]));
                }
            }
            assert(all_on_board(self.body@, width as int, height as int));
        }
        let mut changes = vec![CellChange { pos: head, state: CellState::SnakeBody }];
        if head == self.food {
            let food = roll_food(&self.body, width, height);
            self.food = food;
            changes.push(CellChange { pos: food, state: CellState::Food });
        } else {
            let ghost grown = self.body@;
            let tail = self.body.remove(0);
            proof {
                assert(self.body@ =~= grown.drop_first());
                assert forall|j: int, k: int|
                    0 <= j < self.body@.len() && 0 <= k < self.body@.len() && j != k implies
                    self.body@[j] != self.body@[k] by {
                    assert(grown[j + 1] != grown[k + 1]);
                }
                assert forall|j: int| 0 <= j < self.body@.len() implies on_board(
                    #[trigger] self.body@[j],
                    width as int,
                    height as int,
                ) by {
                    assert(on_board(grown[j + 1], width as int, height as int));
                }
                if self.body@.contains(self.food) {
                    let j = choose|j: int| 0 <= j < self.body@.len() && self.body@[j] == self.food;
                    assert(grown[j + 1] == self.food);
                    if j + 1 < before.len() {
                        assert(before.contains(self.food));
                    }
                }
            }
            changes.push(CellChange { pos: tail, state: CellState::Empty });
        }
        proof {
            assert(changes@ =~= seq![
                CellChange { pos: head, state: CellState::SnakeBody },
                changes@[1],
            ]);
        }
        Step { outcome: Outcome::Continue, changes }
    }

}

} // verus!
