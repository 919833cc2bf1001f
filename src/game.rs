use vstd::prelude::*;
use crate::food::{has_free_cell, Food};
use crate::highscore::HighScore;
use crate::snake::{
    GRID_SIZE,
    grow_model, in_grid, initial_snake, self_collides, step_model, turn_model, wall_collides,
    Direction, Position, Snake, SnakeView,
};

verus! {

/// Simulated time between two ticks, in microseconds.
pub const TICK_INTERVAL_US: u64 = 150_000;

/// What happened during a call that may run a tick: food was eaten (the
/// caller plays the eat sound), the snake died (the die sound), the stored
/// record was raised (the caller persists it).
#[derive(Clone, Copy, PartialEq, Eq, Structural, Debug)]
pub struct TickEvents {
    pub ate: bool,
    pub died: bool,
    pub new_record: bool,
}

/// Nothing happened.
pub open spec fn quiet() -> TickEvents {
    TickEvents { ate: false, died: false, new_record: false }
}

/// The mathematical state of a game session.
pub ghost struct GameView {
    pub snake: SnakeView,
    pub food: Position,
    pub score: nat,
    pub high_score: nat,
    pub is_new_record: bool,
    pub game_over: bool,
    pub timer_us: nat,
    pub achieved_high_score_this_game: bool,
}

/// The snake after the step of a tick, before any growth is requested.
pub open spec fn moved(v: GameView) -> SnakeView {
    step_model(v.snake)
}

/// Whether the step of a tick brings the head onto the food.
pub open spec fn eats(v: GameView) -> bool {
    moved(v).body[0] == v.food
}

/// One tick of a game that is still running, from `v` to `w`, reporting `r`:
/// step; on food, request growth, move the food to a free cell, add a point
/// and offer the score to the record; then end the game on a collision.
pub open spec fn tick_outcome(v: GameView, w: GameView, r: TickEvents) -> bool {
    let ate = eats(v);
    &&& r.ate == ate
    &&& w.snake == (if ate { grow_model(moved(v)) } else { moved(v) })
    &&& w.score == v.score + (if ate { 1nat } else { 0nat })
    &&& (!ate || !has_free_cell(w.snake.body)) ==> w.food == v.food
    &&& (ate && has_free_cell(w.snake.body)) ==> in_grid(w.food) && !w.snake.body.contains(w.food)
    &&& r.new_record == (ate && v.score + 1 > v.high_score)
    &&& w.high_score == (if r.new_record { v.score + 1 } else { v.high_score })
    &&& w.is_new_record == (v.is_new_record || r.new_record)
    &&& w.achieved_high_score_this_game == (v.achieved_high_score_this_game || r.new_record)
    &&& r.died == (self_collides(w.snake) || wall_collides(w.snake))
    &&& w.game_over == r.died
    &&& w.timer_us == v.timer_us
}

/// The state of a session after a restart, given where the food was put.
pub open spec fn fresh_session(v: GameView, w: GameView) -> bool {
    &&& w.snake == initial_snake()
    &&& in_grid(w.food)
    &&& w.food != (Position { x: 10, y: 10 })
    &&& w.score == 0
    &&& !w.game_over
    &&& !w.achieved_high_score_this_game
    &&& w.timer_us == 0
    &&& w.high_score == v.high_score
    &&& !w.is_new_record
}

/// Food that is clear of the snake before a tick is clear of it after the
/// tick, unless the food was eaten on a grid that the snake then fills.
pub proof fn lemma_tick_keeps_food_clear(v: GameView, w: GameView, r: TickEvents)
    requires
        v.snake.body.len() >= 1,
        !v.snake.body.contains(v.food),
        tick_outcome(v, w, r),
        eats(v) ==> has_free_cell(w.snake.body),
    ensures
        !w.snake.body.contains(w.food),
{
    if !eats(v) {
        let kept = if v.snake.grow { v.snake.body } else { v.snake.body.drop_last() };
        assert(w.snake.body == seq![moved(v).body[0]] + kept);
        if w.snake.body.contains(w.food) {
            let k = choose|k: int| 0 <= k < w.snake.body.len() && w.snake.body[k] == w.food;
            if k > 0 {
                assert(kept[k - 1] == v.snake.body[k - 1]);
            }
        }
    }
}

/// The invariant of a session: the snake has a head, less than a tick's
/// time is gathered, the score never passes the record, and while the game
/// runs the head is on the grid, no cell is occupied twice, and the food is
/// on a free cell of the grid whenever there is one.
pub open spec fn game_wf(v: GameView) -> bool {
    &&& v.snake.body.len() >= 1
    &&& v.timer_us < TICK_INTERVAL_US
    &&& v.score <= v.high_score
    &&& !v.game_over ==> in_grid(v.snake.body[0]) && v.snake.body.no_duplicates()
    &&& (!v.game_over && has_free_cell(v.snake.body)) ==> in_grid(v.food)
        && !v.snake.body.contains(v.food)
}

/// A tick of a running session keeps the session's invariant.
pub proof fn lemma_tick_keeps_wf(v: GameView, w: GameView, r: TickEvents)
    requires
        game_wf(v),
        !v.game_over,
        tick_outcome(v, w, r),
    ensures
        game_wf(w),
{
    let old_body = v.snake.body;
    let kept = if v.snake.grow { old_body } else { old_body.drop_last() };
    let h = moved(v).body[0];
    let body = w.snake.body;
    assert(body == seq![h] + kept);
    assert forall|i: int| 0 <= i < kept.len() implies kept[i] == old_body[i] by {}
    if !w.game_over {
        assert(!kept.contains(h)) by {
            if kept.contains(h) {
                let k = choose|k: int| 0 <= k < kept.len() && kept[k] == h;
                assert(body.subrange(1, body.len() as int)[k] == h);
            }
        }
        assert forall|i: int, j: int| 0 <= i < body.len() && 0 <= j < body.len() && i != j implies body[i]
            != body[j] by {
            if i > 0 && j > 0 {
                assert(old_body[i - 1] != old_body[j - 1]);
            }
        }
        if !eats(v) && has_free_cell(body) {
            if has_free_cell(old_body) {
                lemma_tick_keeps_food_clear(v, w, r);
            } else {
                // The grid was full, so the new head lies on the old body; not on
                // the part kept, as no collision occurred, so on the dropped tail.
                assert(old_body.contains(h));
                let k = choose|k: int| 0 <= k < old_body.len() && old_body[k] == h;
                assert(!v.snake.grow && k == old_body.len() - 1) by {
                    if v.snake.grow || k < old_body.len() - 1 {
                        assert(kept[k] == h);
                    }
                }
                let c = choose|x: i32, y: i32|
                    0 <= x < GRID_SIZE && 0 <= y < GRID_SIZE && !body.contains(Position { x, y });
                let p = Position { x: c.0, y: c.1 };
                assert(old_body.contains(p));
                let m = choose|m: int| 0 <= m < old_body.len() && old_body[m] == p;
                if m == k {
                    assert(body[0] == p);
                } else {
                    assert(body[m + 1] == p);
                }
            }
        }
    }
}

/// A game session: the snake, the food, the score, the record store, and the
/// time gathered towards the next tick.
pub struct Game {
    snake: Snake,
    food: Food,
    score: usize,
    high_score: HighScore,
    game_over: bool,
    timer_us: u64,
    achieved_high_score_this_game: bool,
}

impl View for Game {
    type V = GameView;

    closed spec fn view(&self) -> GameView {
        GameView {
            snake: self.snake@,
            food: self.food.position,
            score: self.score as nat,
            high_score: self.high_score.score as nat,
            is_new_record: self.high_score.is_new_record,
            game_over: self.game_over,
            timer_us: self.timer_us as nat,
            achieved_high_score_this_game: self.achieved_high_score_this_game,
        }
    }
}

impl Game {
    /// See `game_wf`.
    pub open spec fn wf(&self) -> bool {
        game_wf(self@)
    }

    /// A new session with the given record store.
    pub fn new(high_score: HighScore) -> (r: Game)
        ensures
            r.wf(),
            r@.snake == initial_snake(),
            in_grid(r@.food),
            r@.food != (Position { x: 10, y: 10 }),
            r@.score == 0,
            !r@.game_over,
            !r@.achieved_high_score_this_game,
            r@.timer_us == 0,
            r@.high_score == high_score.score,
            r@.is_new_record == high_score.is_new_record,
    {
        Game {
            snake: Snake::new(),
            food: Food::new(),
            score: 0,
            high_score,
            game_over: false,
            timer_us: 0,
            achieved_high_score_this_game: false,
        }
    }

    /// A session that resumes from the given snake and food, with no score
    /// yet; it is over at once when the snake already collides.
    pub fn with_state(snake: Snake, food: Food, high_score: HighScore) -> (r: Game)
        requires
            snake.wf(),
            snake@.body.no_duplicates(),
            in_grid(food.position),
            !snake@.body.contains(food.position),
        ensures
            r.wf(),
            r@.snake == snake@,
            r@.food == food.position,
            r@.score == 0,
            r@.game_over == (self_collides(snake@) || wall_collides(snake@)),
            !r@.achieved_high_score_this_game,
            r@.timer_us == 0,
            r@.high_score == high_score.score,
            r@.is_new_record == high_score.is_new_record,
    {
        let game_over = snake.check_self_collision() || snake.check_wall_collision();
        Game {
            snake,
            food,
            score: 0,
            high_score,
            game_over,
            timer_us: 0,
            achieved_high_score_this_game: false,
        }
    }

    /// Passes a direction command on to the snake, which refuses a reversal.
    pub fn apply_direction(&mut self, dir: Direction)
        requires
            old(self).wf(),
        ensures
            final(self).wf(),
            final(self)@ == (GameView { snake: turn_model(old(self)@.snake, dir), ..old(self)@ }),
    {
        self.snake.change_direction(dir);
    }

    /// Runs one tick now. A finished game is left as it is.
    pub fn tick(&mut self) -> (r: TickEvents)
        requires
            old(self).wf(),
            old(self)@.score < usize::MAX,
        ensures
            final(self).wf(),
            old(self)@.game_over ==> final(self)@ == old(self)@ && r == quiet(),
            !old(self)@.game_over ==> tick_outcome(old(self)@, final(self)@, r),
    {
        if self.game_over {
            return TickEvents { ate: false, died: false, new_record: false };
        }
        self.snake.update();
        let mut events = TickEvents { ate: false, died: false, new_record: false };
        if self.snake.head_position() == self.food.position {
            self.snake.grow();
            self.food.respawn_safe(&self.snake);
            self.score = self.score + 1;
            if self.high_score.check_and_update(self.score) {
                self.achieved_high_score_this_game = true;
                events.new_record = true;
            }
            events.ate = true;
        }
        if self.snake.check_self_collision() || self.snake.check_wall_collision() {
            self.game_over = true;
            events.died = true;
        }
        proof {
            assert(tick_outcome(old(self)@, self@, events));
            lemma_tick_keeps_wf(old(self)@, self@, events);
        }
        events
    }

    /// Gathers `elapsed_us` microseconds of time and runs a tick once a full
    /// interval has gathered, starting the count again from zero. A finished
    /// game gathers nothing.
    pub fn update(&mut self, elapsed_us: u64) -> (r: TickEvents)
        requires
            old(self).wf(),
            old(self)@.score < usize::MAX,
        ensures
            final(self).wf(),
            old(self)@.game_over ==> final(self)@ == old(self)@ && r == quiet(),
            !old(self)@.game_over && old(self)@.timer_us + elapsed_us < TICK_INTERVAL_US
                ==> final(self)@ == (GameView { timer_us: (old(self)@.timer_us + elapsed_us) as nat, ..old(self)@ })
                && r == quiet(),
            !old(self)@.game_over && old(self)@.timer_us + elapsed_us >= TICK_INTERVAL_US
                ==> tick_outcome((GameView { timer_us: 0, ..old(self)@ }), final(self)@, r),
    {
        if self.game_over {
            return TickEvents { ate: false, died: false, new_record: false };
        }
        if elapsed_us < TICK_INTERVAL_US - self.timer_us {
            self.timer_us = self.timer_us + elapsed_us;
            return TickEvents { ate: false, died: false, new_record: false };
        }
        self.timer_us = 0;
        self.tick()
    }

    /// After the game is over, starts a new session: a fresh snake, new food,
    /// no score, no record this session. The stored record stays. While the
    /// game runs this does nothing.
    pub fn restart(&mut self)
        requires
            old(self).wf(),
        ensures
            final(self).wf(),
            !old(self)@.game_over ==> final(self)@ == old(self)@,
            old(self)@.game_over ==> fresh_session(old(self)@, final(self)@),
    {
        if self.game_over {
            self.snake = Snake::new();
            self.food = Food::new();
            self.score = 0;
            self.game_over = false;
            self.timer_us = 0;
            self.achieved_high_score_this_game = false;
            self.high_score.reset_new_record_flag();
        }
    }

    pub fn snake(&self) -> (r: &Snake)
        ensures
            r@ == self@.snake,
            self.wf() ==> r.wf(),
    {
        &self.snake
    }

    pub fn food(&self) -> (r: Position)
        ensures
            r == self@.food,
    {
        self.food.position
    }

    pub fn score(&self) -> (r: usize)
        ensures
            r == self@.score,
    {
        self.score
    }

    pub fn high_score(&self) -> (r: &HighScore)
        ensures
            r.score == self@.high_score,
            r.is_new_record == self@.is_new_record,
    {
        &self.high_score
    }

    pub fn is_game_over(&self) -> (r: bool)
        ensures
            r == self@.game_over,
    {
        self.game_over
    }

    /// Whether this session raised the stored record.
    pub fn achieved_high_score_this_game(&self) -> (r: bool)
        ensures
            r == self@.achieved_high_score_this_game,
    {
        self.achieved_high_score_this_game
    }
}

} // verus!
