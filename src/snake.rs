use vstd::prelude::*;

verus! {

/// Number of cells along each axis of the square grid.
pub const GRID_SIZE: i32 = 20;

/// Heading of the snake.
#[derive(Clone, Copy, PartialEq, Eq, Structural, Debug)]
pub enum Direction {
    Up,
    Down,
    Left,
    Right,
}

/// A grid cell; `x` grows to the right and `y` grows downward.
#[derive(Clone, Copy, PartialEq, Eq, Structural, Debug)]
pub struct Position {
    pub x: i32,
    pub y: i32,
}

/// The heading that would turn the snake straight back onto itself.
pub open spec fn opposite(d: Direction) -> Direction {
    match d {
        Direction::Up => Direction::Down,
        Direction::Down => Direction::Up,
        Direction::Left => Direction::Right,
        Direction::Right => Direction::Left,
    }
}

/// Whether moving one cell from `p` along `d` stays within `i32`.
pub open spec fn can_step(p: Position, d: Direction) -> bool {
    match d {
        Direction::Up => p.y > i32::MIN,
        Direction::Down => p.y < i32::MAX,
        Direction::Left => p.x > i32::MIN,
        Direction::Right => p.x < i32::MAX,
    }
}

/// The cell one step from `p` along `d`.
pub open spec fn stepped(p: Position, d: Direction) -> Position {
    match d {
        Direction::Up => Position { x: p.x, y: (p.y - 1) as i32 },
        Direction::Down => Position { x: p.x, y: (p.y + 1) as i32 },
        Direction::Left => Position { x: (p.x - 1) as i32, y: p.y },
        Direction::Right => Position { x: (p.x + 1) as i32, y: p.y },
    }
}

/// Whether `p` lies on the grid, each axis within `[0, GRID_SIZE)`.
pub open spec fn in_grid(p: Position) -> bool {
    0 <= p.x < GRID_SIZE && 0 <= p.y < GRID_SIZE
}

/// The mathematical state of a snake: its cells from head to tail, its
/// heading and whether the next step grows it.
pub ghost struct SnakeView {
    pub body: Seq<Position>,
    pub dir: Direction,
    pub grow: bool,
}

/// The snake every game starts with: one cell in the middle, heading right.
pub open spec fn initial_snake() -> SnakeView {
    SnakeView { body: seq![Position { x: 10, y: 10 }], dir: Direction::Right, grow: false }
}

/// One step: a new head along the heading; the tail is kept only when growth
/// was pending, and the pending growth is then used up.
pub open spec fn step_model(v: SnakeView) -> SnakeView {
    let kept = if v.grow { v.body } else { v.body.drop_last() };
    SnakeView { body: seq![stepped(v.body[0], v.dir)] + kept, dir: v.dir, grow: false }
}

/// Growth is a flag: asking for it sets it, however often it is asked.
pub open spec fn grow_model(v: SnakeView) -> SnakeView {
    SnakeView { grow: true, ..v }
}

/// A turn is taken unless it is the exact reverse of the heading.
pub open spec fn turn_model(v: SnakeView, d: Direction) -> SnakeView {
    if d == opposite(v.dir) {
        v
    } else {
        SnakeView { dir: d, ..v }
    }
}

/// Whether the head occurs again further down the body.
pub open spec fn self_collides(v: SnakeView) -> bool {
    v.body.len() > 1 && v.body.subrange(1, v.body.len() as int).contains(v.body[0])
}

/// Whether the head has left the grid.
pub open spec fn wall_collides(v: SnakeView) -> bool {
    !in_grid(v.body[0])
}

/// The snake after the turn requests `ds`, taken in order.
pub open spec fn turns(v: SnakeView, ds: Seq<Direction>) -> SnakeView
    decreases ds.len(),
{
    if ds.len() == 0 {
        v
    } else {
        turn_model(turns(v, ds.drop_last()), ds.last())
    }
}

/// The snake after `n` consumptions, each a growth request followed by a step.
pub open spec fn consumptions(v: SnakeView, n: nat) -> SnakeView
    decreases n,
{
    if n == 0 {
        v
    } else {
        step_model(grow_model(consumptions(v, (n - 1) as nat)))
    }
}

/// Whatever turn requests arrive, no accepted heading is the reverse of the
/// heading before it, and turning never moves the body.
pub proof fn lemma_turns_never_reverse(v: SnakeView, ds: Seq<Direction>)
    ensures
        forall|i: int|
            0 <= i < ds.len() ==> (#[trigger] turns(v, ds.take(i + 1))).dir != opposite(
                turns(v, ds.take(i)).dir,
            ),
        turns(v, ds).body == v.body,
    decreases ds.len(),
{
    assert forall|i: int| 0 <= i < ds.len() implies (#[trigger] turns(v, ds.take(i + 1))).dir
        != opposite(turns(v, ds.take(i)).dir) by {
        assert(ds.take(i + 1).drop_last() =~= ds.take(i));
        assert(ds.take(i + 1).last() == ds[i]);
    }
    if ds.len() > 0 {
        lemma_turns_never_reverse(v, ds.drop_last());
    }
}

/// Each consumption adds exactly one segment: after `n` of them the body is
/// `n` cells longer, and no growth is left pending.
pub proof fn lemma_consumptions_add_length(v: SnakeView, n: nat)
    requires
        v.body.len() >= 1,
    ensures
        consumptions(v, n).body.len() == v.body.len() + n,
        n > 0 ==> !consumptions(v, n).grow,
    decreases n,
{
    if n > 0 {
        lemma_consumptions_add_length(v, (n - 1) as nat);
    }
}

/// Growth is a flag: asking twice before a step adds the same single segment
/// as asking once.
pub proof fn lemma_growth_is_single_shot(v: SnakeView)
    requires
        v.body.len() >= 1,
    ensures
        grow_model(grow_model(v)) == grow_model(v),
        step_model(grow_model(grow_model(v))).body.len() == v.body.len() + 1,
{
}

pub struct Snake {
    body: Vec<Position>,
    dir: Direction,
    grow: bool,
}

impl View for Snake {
    type V = SnakeView;

    closed spec fn view(&self) -> SnakeView {
        SnakeView { body: self.body@, dir: self.dir, grow: self.grow }
    }
}

impl Snake {
    /// A snake always has a head.
    pub open spec fn wf(&self) -> bool {
        self@.body.len() >= 1
    }

    pub fn new() -> (r: Snake)
        ensures
            r.wf(),
            r@ == initial_snake(),
    {
        let start = Position { x: 10, y: 10 };
        let mut body: Vec<Position> = Vec::new();
        body.push(start);
        let r = Snake { body, dir: Direction::Right, grow: false };
        assert(r@.body =~= initial_snake().body);
        r
    }

    pub fn head_position(&self) -> (r: Position)
        requires
            self.wf(),
        ensures
            r == self@.body[0],
    {
        self.body[0]
    }

    /// Moves the snake one cell along its heading. No bounds are checked: a
    /// head off the grid is left for `check_wall_collision` to report.
    pub fn update(&mut self)
        requires
            old(self).wf(),
            can_step(old(self)@.body[0], old(self)@.dir),
        ensures
            final(self).wf(),
            final(self)@ == step_model(old(self)@),
            final(self)@.body.len() == old(self)@.body.len() + if old(self)@.grow { 1int } else { 0int },
    {
        let mut new_head = self.head_position();
        match self.dir {
            Direction::Up => new_head.y = new_head.y - 1,
            Direction::Down => new_head.y = new_head.y + 1,
            Direction::Left => new_head.x = new_head.x - 1,
            Direction::Right => new_head.x = new_head.x + 1,
        }
        let ghost before = self@;
        self.body.insert(0, new_head);
        if !self.grow {
            self.body.pop();
            assert(self.body@ =~= seq![new_head] + before.body.drop_last());
        } else {
            self.grow = false;
            assert(self.body@ =~= seq![new_head] + before.body);
        }
    }

    /// Asks for one more segment on the next step; repeated calls before that
    /// step still add only one.
    pub fn grow(&mut self)
        requires
            old(self).wf(),
        ensures
            final(self).wf(),
            final(self)@ == grow_model(old(self)@),
    {
        self.grow = true;
    }

    /// Takes the new heading unless it reverses the current one.
    pub fn change_direction(&mut self, dir: Direction)
        requires
            old(self).wf(),
        ensures
            final(self).wf(),
            final(self)@ == turn_model(old(self)@, dir),
            final(self)@.dir != opposite(old(self)@.dir),
    {
        if dir != opposite_of(self.dir) {
            self.dir = dir;
        }
    }

    /// Whether the head lies on another segment of the body.
    pub fn check_self_collision(&self) -> (r: bool)
        requires
            self.wf(),
        ensures
            r == self_collides(self@),
            self@.body.len() <= 1 ==> !r,
    {
        if self.body.len() <= 1 {
            return false;
        }
        let head = self.head_position();
        let mut i: usize = 1;
        while i < self.body.len()
            invariant
                1 <= i <= self.body.len(),
                head == self@.body[0],
                forall|j: int| 1 <= j < i ==> self.body@[j] != head,
            decreases self.body.len() - i,
        {
            if self.body[i] == head {
                assert(self@.body.subrange(1, self@.body.len() as int)[i - 1] == head);
                return true;
            }
            i = i + 1;
        }
        assert forall|k: int| 0 <= k < self@.body.len() - 1 implies
            self@.body.subrange(1, self@.body.len() as int)[k] != head by {
            assert(self@.body.subrange(1, self@.body.len() as int)[k] == self.body@[k + 1]);
        }
        false
    }

    /// Whether the head lies off the grid.
    pub fn check_wall_collision(&self) -> (r: bool)
        requires
            self.wf(),
        ensures
            r == wall_collides(self@),
            r == (self@.body[0].x < 0 || self@.body[0].x >= GRID_SIZE || self@.body[0].y < 0
                || self@.body[0].y >= GRID_SIZE),
    {
        let head = self.head_position();
        head.x < 0 || head.x >= GRID_SIZE || head.y < 0 || head.y >= GRID_SIZE
    }

    /// Whether `pos` is one of the snake's cells.
    pub fn contains_position(&self, pos: Position) -> (r: bool)
        ensures
            r == self@.body.contains(pos),
    {
        let mut i: usize = 0;
        while i < self.body.len()
            invariant
                i <= self.body.len(),
                forall|j: int| 0 <= j < i ==> self.body@[j] != pos,
            decreases self.body.len() - i,
        {
            if self.body[i] == pos {
                return true;
            }
            i = i + 1;
        }
        false
    }

    /// The occupied cells from head to tail.
    pub fn body(&self) -> (r: &Vec<Position>)
        ensures
            r@ == self@.body,
    {
        &self.body
    }

    pub fn direction(&self) -> (r: Direction)
        ensures
            r == self@.dir,
    {
        self.dir
    }

    /// Whether the next step will add a segment.
    pub fn is_growing(&self) -> (r: bool)
        ensures
            r == self@.grow,
    {
        self.grow
    }
}

/// The reverse of `d`.
pub fn opposite_of(d: Direction) -> (r: Direction)
    ensures
        r == opposite(d),
{
    match d {
        Direction::Up => Direction::Down,
        Direction::Down => Direction::Up,
        Direction::Left => Direction::Right,
        Direction::Right => Direction::Left,
    }
}

} // verus!
