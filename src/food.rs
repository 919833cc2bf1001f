use vstd::prelude::*;
use crate::snake::{in_grid, Position, Snake, GRID_SIZE};

verus! {

/// How many random cells are drawn before the grid is scanned in order.
pub const MAX_RANDOM_DRAWS: u32 = 64;

/// Whether some cell of the grid is not occupied by `body`.
pub open spec fn has_free_cell(body: Seq<Position>) -> bool {
    exists|x: i32, y: i32|
        0 <= x < GRID_SIZE && 0 <= y < GRID_SIZE && !body.contains(Position { x, y })
}

/// The single food item on the grid.
pub struct Food {
    pub position: Position,
}

/// Relies on rand::thread_rng and rand::Rng::gen_range: a value drawn from the
/// half-open range `0..bound`, which gen_range requires to be non-empty.
#[verifier::external_body]
fn random_below(bound: i32) -> (r: i32)
    requires
        0 < bound,
    ensures
        0 <= r < bound,
{
    rand::Rng::gen_range(&mut rand::thread_rng(), 0..bound)
}

impl Food {
    /// Food placed on a free cell of the grid against a fresh snake.
    pub fn new() -> (r: Food)
        ensures
            in_grid(r.position),
            r.position != (Position { x: 10, y: 10 }),
    {
        let mut food = Food { position: Position { x: 0, y: 0 } };
        let snake = Snake::new();
        proof {
            let corner = Position { x: 0, y: 0 };
            assert(!snake@.body.contains(corner)) by {
                if snake@.body.contains(corner) {
                    let k = choose|k: int| 0 <= k < snake@.body.len() && snake@.body[k] == corner;
                    assert(snake@.body[k] == Position { x: 10, y: 10 });
                }
            }
            assert(has_free_cell(snake@.body));
        }
        food.respawn_safe(&snake);
        assert(!snake@.body.contains(food.position));
        assert(snake@.body[0] == Position { x: 10, y: 10 });
        food
    }

    /// Moves the food to a random cell of the grid, occupied or not.
    pub fn respawn(&mut self)
        ensures
            in_grid(final(self).position),
    {
        self.position.x = random_below(GRID_SIZE);
        self.position.y = random_below(GRID_SIZE);
    }

    /// Moves the food to a random free cell: `MAX_RANDOM_DRAWS` random cells
    /// are drawn and `pick_cell` takes the first free one, falling back to a
    /// row-by-row scan. When the snake covers the whole grid the food stays
    /// where it was.
    pub fn respawn_safe(&mut self, snake: &Snake)
        ensures
            has_free_cell(snake@.body) ==> in_grid(final(self).position) && !snake@.body.contains(
                final(self).position,
            ),
            !has_free_cell(snake@.body) ==> final(self).position == old(self).position,
    {
        let mut draws: Vec<Position> = Vec::new();
        let mut n: u32 = 0;
        while n < MAX_RANDOM_DRAWS
            invariant
                forall|k: int| 0 <= k < draws@.len() ==> in_grid(#[trigger] draws@[k]),
            decreases MAX_RANDOM_DRAWS - n,
        {
            draws.push(Position { x: random_below(GRID_SIZE), y: random_below(GRID_SIZE) });
            n = n + 1;
        }
        self.position = pick_cell(&draws, snake, self.position);
    }
}

/// The cell at row-major index `c` of the grid.
pub open spec fn grid_cell(c: int) -> Position {
    Position { x: (c % GRID_SIZE as int) as i32, y: (c / GRID_SIZE as int) as i32 }
}

/// The cells that food may go to, in order of preference: the draws, then
/// every cell of the grid row by row.
pub open spec fn candidates(draws: Seq<Position>) -> Seq<Position> {
    draws + Seq::new((GRID_SIZE * GRID_SIZE) as nat, |c: int| grid_cell(c))
}

/// The first of `cands`, from index `i` on, that `body` does not occupy.
pub open spec fn first_free_from(cands: Seq<Position>, body: Seq<Position>, i: int) -> Option<
    Position,
>
    decreases cands.len() - i,
{
    if i < 0 || i >= cands.len() {
        None
    } else if !body.contains(cands[i]) {
        Some(cands[i])
    } else {
        first_free_from(cands, body, i + 1)
    }
}

/// Where food goes, given the random draws: the first draw that `body` does
/// not occupy, else the first free cell row by row, else `current`.
pub open spec fn placement(draws: Seq<Position>, body: Seq<Position>, current: Position) -> Position {
    match first_free_from(candidates(draws), body, 0) {
        Some(p) => p,
        None => current,
    }
}

/// Chooses where food goes from the cells drawn at random, as `placement`
/// describes.
pub fn pick_cell(draws: &Vec<Position>, snake: &Snake, current: Position) -> (r: Position)
    requires
        forall|k: int| 0 <= k < draws@.len() ==> in_grid(#[trigger] draws@[k]),
    ensures
        r == placement(draws@, snake@.body, current),
        has_free_cell(snake@.body) ==> in_grid(r) && !snake@.body.contains(r),
        !has_free_cell(snake@.body) ==> r == current,
{
    let ghost cands = candidates(draws@);
    let ghost body = snake@.body;
    let mut k: usize = 0;
    while k < draws.len()
        invariant
            k <= draws@.len(),
            forall|m: int| 0 <= m < draws@.len() ==> in_grid(#[trigger] draws@[m]),
            cands == candidates(draws@),
            body == snake@.body,
            first_free_from(cands, body, 0) == first_free_from(cands, body, k as int),
        decreases draws.len() - k,
    {
        assert(cands[k as int] == draws@[k as int]);
        if !snake.contains_position(draws[k]) {
            let ghost p = draws@[k as int];
            assert(in_grid(p));
            assert(!body.contains(Position { x: p.x, y: p.y }));
            assert(has_free_cell(body));
            return draws[k];
        }
        k = k + 1;
    }
    let mut y: i32 = 0;
    while y < GRID_SIZE
        invariant
            0 <= y <= GRID_SIZE,
            cands == candidates(draws@),
            body == snake@.body,
            first_free_from(cands, body, 0) == first_free_from(
                cands,
                body,
                draws@.len() + y * GRID_SIZE,
            ),
            forall|a: i32, b: i32|
                0 <= a < GRID_SIZE && 0 <= b < y ==> #[trigger] body.contains(Position { x: a, y: b }),
        decreases GRID_SIZE - y,
    {
        let mut x: i32 = 0;
        while x < GRID_SIZE
            invariant
                0 <= y < GRID_SIZE,
                0 <= x <= GRID_SIZE,
                cands == candidates(draws@),
                body == snake@.body,
                first_free_from(cands, body, 0) == first_free_from(
                    cands,
                    body,
                    draws@.len() + y * GRID_SIZE + x,
                ),
                forall|a: i32, b: i32|
                    0 <= a < GRID_SIZE && 0 <= b < y ==> #[trigger] body.contains(
                        Position { x: a, y: b },
                    ),
                forall|a: i32| 0 <= a < x ==> #[trigger] body.contains(Position { x: a, y }),
            decreases GRID_SIZE - x,
        {
            let candidate = Position { x, y };
            assert(grid_cell(y * GRID_SIZE + x) == candidate);
            assert(cands[draws@.len() + y * GRID_SIZE + x] == candidate);
            if !snake.contains_position(candidate) {
                assert(has_free_cell(body));
                return candidate;
            }
            x = x + 1;
        }
        y = y + 1;
    }
    assert(draws@.len() + GRID_SIZE * GRID_SIZE == cands.len());
    proof {
        assert forall|a: i32, b: i32|
            0 <= a < GRID_SIZE && 0 <= b < GRID_SIZE implies body.contains(Position { x: a, y: b }) by {}
    }
    current
}

} // verus!
