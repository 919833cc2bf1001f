use snake_game::food::{pick_cell, Food};
use snake_game::game::{Game, TickEvents, TICK_INTERVAL_US};
use snake_game::highscore::{parse_high_score, HighScore};
use snake_game::snake::{opposite_of, Direction, Position, Snake, GRID_SIZE};

fn pos(x: i32, y: i32) -> Position {
    Position { x, y }
}

fn in_grid(p: Position) -> bool {
    0 <= p.x && p.x < GRID_SIZE && 0 <= p.y && p.y < GRID_SIZE
}

fn moved(dirs: &[Direction]) -> Snake {
    let mut s = Snake::new();
    for d in dirs {
        s.change_direction(*d);
        s.update();
    }
    s
}

#[test]
fn new_snake_is_one_cell_heading_right() {
    let s = Snake::new();
    assert_eq!(s.body(), &vec![pos(10, 10)]);
    assert_eq!(s.head_position(), pos(10, 10));
    assert_eq!(s.direction(), Direction::Right);
    assert!(!s.is_growing());
}

#[test]
fn reversal_is_never_accepted() {
    let all = [Direction::Up, Direction::Down, Direction::Left, Direction::Right];
    let requests = [
        Direction::Left,
        Direction::Up,
        Direction::Down,
        Direction::Right,
        Direction::Left,
        Direction::Down,
        Direction::Up,
        Direction::Left,
        Direction::Right,
    ];
    let mut s = Snake::new();
    for d in requests {
        let before = s.direction();
        s.change_direction(d);
        let after = s.direction();
        assert_ne!(after, opposite_of(before));
        if d == opposite_of(before) {
            assert_eq!(after, before);
        } else {
            assert_eq!(after, d);
        }
    }
    for h in all {
        assert_ne!(h, opposite_of(h));
    }
}

#[test]
fn reverse_request_keeps_heading() {
    let mut s = Snake::new();
    s.change_direction(Direction::Left);
    assert_eq!(s.direction(), Direction::Right);
    s.change_direction(Direction::Up);
    assert_eq!(s.direction(), Direction::Up);
    s.change_direction(Direction::Down);
    assert_eq!(s.direction(), Direction::Up);
}

#[test]
fn step_moves_head_without_growing() {
    let mut s = Snake::new();
    s.update();
    assert_eq!(s.body(), &vec![pos(11, 10)]);
    s.change_direction(Direction::Down);
    s.update();
    assert_eq!(s.body(), &vec![pos(11, 11)]);
}

#[test]
fn consumptions_add_one_segment_each() {
    let mut s = Snake::new();
    let initial = s.body().len();
    for n in 1..=7usize {
        s.grow();
        s.update();
        assert_eq!(s.body().len(), initial + n);
    }
    assert_eq!(s.head_position(), pos(17, 10));
}

#[test]
fn growth_is_single_shot() {
    let mut s = Snake::new();
    s.grow();
    s.grow();
    s.grow();
    s.update();
    assert_eq!(s.body(), &vec![pos(11, 10), pos(10, 10)]);
    s.update();
    assert_eq!(s.body(), &vec![pos(12, 10), pos(11, 10)]);
    assert!(!s.is_growing());
}

#[test]
fn single_segment_never_self_collides() {
    let paths: [&[Direction]; 4] = [
        &[],
        &[Direction::Up, Direction::Up, Direction::Left],
        &[Direction::Down, Direction::Left, Direction::Left, Direction::Up],
        &[Direction::Right; 12],
    ];
    for p in paths {
        let s = moved(p);
        assert_eq!(s.body().len(), 1);
        assert!(!s.check_self_collision());
    }
}

#[test]
fn turning_into_own_body_is_self_collision() {
    let mut s = Snake::new();
    for _ in 0..4 {
        s.grow();
        s.update();
    }
    assert_eq!(s.body().len(), 5);
    assert!(!s.check_self_collision());
    s.change_direction(Direction::Down);
    s.update();
    s.change_direction(Direction::Left);
    s.update();
    assert!(!s.check_self_collision());
    s.change_direction(Direction::Up);
    s.update();
    assert_eq!(s.head_position(), pos(13, 10));
    assert!(s.check_self_collision());
}

#[test]
fn wall_collision_boundary_values() {
    let right = |n: usize| moved(&vec![Direction::Right; n]);
    assert_eq!(right(9).head_position(), pos(19, 10));
    assert!(!right(9).check_wall_collision());
    assert_eq!(right(10).head_position(), pos(20, 10));
    assert!(right(10).check_wall_collision());

    let left = |n: usize| moved(&[vec![Direction::Up], vec![Direction::Left; n]].concat());
    assert_eq!(left(10).head_position(), pos(0, 9));
    assert!(!left(10).check_wall_collision());
    assert_eq!(left(11).head_position(), pos(-1, 9));
    assert!(left(11).check_wall_collision());

    let up = |n: usize| moved(&vec![Direction::Up; n]);
    assert_eq!(up(10).head_position(), pos(10, 0));
    assert!(!up(10).check_wall_collision());
    assert_eq!(up(11).head_position(), pos(10, -1));
    assert!(up(11).check_wall_collision());

    let down = |n: usize| moved(&vec![Direction::Down; n]);
    assert_eq!(down(9).head_position(), pos(10, 19));
    assert!(!down(9).check_wall_collision());
    assert_eq!(down(10).head_position(), pos(10, 20));
    assert!(down(10).check_wall_collision());
}

#[test]
fn contains_position_sees_every_cell() {
    let mut s = Snake::new();
    s.grow();
    s.update();
    s.grow();
    s.update();
    assert!(s.contains_position(pos(12, 10)));
    assert!(s.contains_position(pos(11, 10)));
    assert!(s.contains_position(pos(10, 10)));
    assert!(!s.contains_position(pos(13, 10)));
    assert!(!s.contains_position(pos(10, 11)));
}

#[test]
fn new_food_avoids_fresh_snake() {
    for _ in 0..200 {
        let f = Food::new();
        assert!(in_grid(f.position));
        assert_ne!(f.position, pos(10, 10));
    }
}

#[test]
fn respawn_stays_on_grid() {
    let mut f = Food { position: pos(-5, 40) };
    for _ in 0..200 {
        f.respawn();
        assert!(in_grid(f.position));
    }
}

#[test]
fn respawn_safe_avoids_snakes_of_many_shapes() {
    let shapes: Vec<Vec<Direction>> = vec![
        vec![Direction::Right; 8],
        vec![Direction::Up, Direction::Up, Direction::Left, Direction::Left, Direction::Down],
        vec![Direction::Down; 9],
        [vec![Direction::Left; 10], vec![Direction::Up; 10]].concat(),
    ];
    for shape in shapes {
        let mut s = Snake::new();
        for d in &shape {
            s.grow();
            s.change_direction(*d);
            s.update();
        }
        assert_eq!(s.body().len(), shape.len() + 1);
        for _ in 0..100 {
            let mut f = Food { position: s.head_position() };
            f.respawn_safe(&s);
            assert!(in_grid(f.position));
            assert!(!s.contains_position(f.position));
        }
    }
}

#[test]
fn respawn_safe_on_a_crowded_grid() {
    // Up to the top row, left to the corner, then row by row down the grid:
    // every cell is covered but the right part of the top row.
    let mut steps: Vec<Direction> = vec![Direction::Up; 10];
    steps.extend(vec![Direction::Left; 10]);
    for row in 1..20 {
        steps.push(Direction::Down);
        let d = if row % 2 == 1 { Direction::Right } else { Direction::Left };
        steps.extend(vec![d; 19]);
    }
    let mut t = Snake::new();
    for d in &steps {
        t.grow();
        t.change_direction(*d);
        t.update();
    }
    assert_eq!(t.head_position(), pos(19, 19));
    let mut free = Vec::new();
    for y in 0..GRID_SIZE {
        for x in 0..GRID_SIZE {
            if !t.contains_position(pos(x, y)) {
                free.push(pos(x, y));
            }
        }
    }
    assert_eq!(free, (11..20).map(|x| pos(x, 0)).collect::<Vec<_>>());
    for _ in 0..100 {
        let mut f = Food { position: pos(0, 0) };
        f.respawn_safe(&t);
        assert!(free.contains(&f.position));
    }
}

#[test]
fn high_score_record_then_no_record() {
    let mut h = HighScore::new();
    assert_eq!(h.score, 0);
    assert!(h.check_and_update(5));
    assert_eq!(h.score, 5);
    assert!(h.is_new_record);
    assert!(!h.check_and_update(3));
    assert_eq!(h.score, 5);
    assert!(!h.check_and_update(5));
    assert_eq!(h.score, 5);
    h.reset_new_record_flag();
    assert!(!h.is_new_record);
    assert_eq!(h.score, 5);
}

#[test]
fn high_score_from_saved_value() {
    let mut h = HighScore::with_score(12);
    assert_eq!(h.score, 12);
    assert!(!h.is_new_record);
    assert!(!h.check_and_update(12));
    assert!(h.check_and_update(13));
    assert_eq!(h.score, 13);
}

#[test]
fn parse_saved_records() {
    assert_eq!(parse_high_score("42"), 42);
    assert_eq!(parse_high_score("  17\n"), 17);
    assert_eq!(parse_high_score("\t+8\r\n"), 8);
    assert_eq!(parse_high_score("0"), 0);
    assert_eq!(parse_high_score(""), 0);
    assert_eq!(parse_high_score("   "), 0);
    assert_eq!(parse_high_score("+"), 0);
    assert_eq!(parse_high_score("-3"), 0);
    assert_eq!(parse_high_score("12a"), 0);
    assert_eq!(parse_high_score("1 2"), 0);
    assert_eq!(parse_high_score(&usize::MAX.to_string()), usize::MAX);
    assert_eq!(parse_high_score("\u{a0}5"), 5);
    assert_eq!(parse_high_score("\u{3000}12\u{2029}"), 12);
    assert_eq!(parse_high_score("\u{85}+30\u{202f}\u{205f}"), 30);
    assert_eq!(parse_high_score("\u{200b}5"), 0);
    assert_eq!(parse_high_score("\u{a0}"), 0);
    assert_eq!(parse_high_score(&format!("{}0", usize::MAX)), 0);
}

fn game_at(snake: Snake, food: Position, best: usize) -> Game {
    Game::with_state(snake, Food { position: food }, HighScore::with_score(best))
}

#[test]
fn new_game_starts_playing() {
    let g = Game::new(HighScore::with_score(9));
    assert_eq!(g.snake().body(), &vec![pos(10, 10)]);
    assert!(in_grid(g.food()));
    assert_ne!(g.food(), pos(10, 10));
    assert_eq!(g.score(), 0);
    assert_eq!(g.high_score().score, 9);
    assert!(!g.is_game_over());
    assert!(!g.achieved_high_score_this_game());
}

#[test]
fn tick_onto_food_scores_and_moves_food() {
    let mut g = game_at(Snake::new(), pos(11, 10), 0);
    let e = g.tick();
    assert_eq!(e, TickEvents { ate: true, died: false, new_record: true });
    assert_eq!(g.snake().head_position(), pos(11, 10));
    assert_eq!(g.score(), 1);
    assert!(in_grid(g.food()));
    assert!(!g.snake().contains_position(g.food()));
    // The segment is added by the step after the one that reached the food.
    assert_eq!(g.snake().body().len(), 1);
    assert!(g.snake().is_growing());
    g.tick();
    assert_eq!(g.snake().body().len(), 2);
    assert_eq!(g.snake().head_position(), pos(12, 10));
    assert_eq!(g.high_score().score, g.score());
    assert!(g.achieved_high_score_this_game());
}

#[test]
fn tick_past_the_wall_ends_game() {
    let s = moved(&vec![Direction::Right; 9]);
    assert_eq!(s.head_position(), pos(19, 10));
    let mut g = game_at(s, pos(0, 0), 0);
    let e = g.tick();
    assert_eq!(e, TickEvents { ate: false, died: true, new_record: false });
    assert_eq!(g.snake().head_position(), pos(20, 10));
    assert!(g.snake().check_wall_collision());
    assert!(g.is_game_over());
    // A finished game ignores ticks and time.
    assert_eq!(g.tick(), TickEvents { ate: false, died: false, new_record: false });
    assert_eq!(g.update(TICK_INTERVAL_US), TickEvents { ate: false, died: false, new_record: false });
    assert_eq!(g.snake().head_position(), pos(20, 10));
}

#[test]
fn no_record_when_score_stays_below_best() {
    let mut g = game_at(Snake::new(), pos(11, 10), 3);
    let e = g.tick();
    assert!(e.ate);
    assert!(!e.new_record);
    assert_eq!(g.high_score().score, 3);
    assert!(!g.achieved_high_score_this_game());
}

#[test]
fn restart_after_game_over_resets_session() {
    let mut g = game_at(Snake::new(), pos(11, 10), 0);
    g.tick();
    assert_eq!(g.score(), 1);
    let best = g.high_score().score;
    assert_eq!(best, 1);
    g.apply_direction(Direction::Up);
    while !g.is_game_over() {
        g.tick();
    }
    g.restart();
    assert_eq!(g.snake().body(), &vec![pos(10, 10)]);
    assert_eq!(g.snake().direction(), Direction::Right);
    assert_eq!(g.score(), 0);
    assert!(!g.is_game_over());
    assert!(!g.achieved_high_score_this_game());
    assert_eq!(g.high_score().score, best);
    assert!(in_grid(g.food()));
    assert_ne!(g.food(), pos(10, 10));
}

#[test]
fn restart_while_playing_does_nothing() {
    let mut g = game_at(Snake::new(), pos(0, 0), 4);
    g.tick();
    g.restart();
    assert_eq!(g.snake().head_position(), pos(11, 10));
    assert_eq!(g.food(), pos(0, 0));
    assert_eq!(g.high_score().score, 4);
}

#[test]
fn reverse_command_ignored_by_game() {
    let mut g = game_at(Snake::new(), pos(0, 0), 0);
    g.apply_direction(Direction::Left);
    g.tick();
    assert_eq!(g.snake().head_position(), pos(11, 10));
    g.apply_direction(Direction::Down);
    g.apply_direction(Direction::Left);
    g.tick();
    assert_eq!(g.snake().head_position(), pos(10, 10));
}

#[test]
fn time_gathers_until_a_full_interval() {
    let mut g = game_at(Snake::new(), pos(0, 0), 0);
    assert_eq!(g.update(100_000), TickEvents { ate: false, died: false, new_record: false });
    assert_eq!(g.snake().head_position(), pos(10, 10));
    g.update(49_999);
    assert_eq!(g.snake().head_position(), pos(10, 10));
    g.update(1);
    assert_eq!(g.snake().head_position(), pos(11, 10));
    g.update(TICK_INTERVAL_US - 1);
    assert_eq!(g.snake().head_position(), pos(11, 10));
    g.update(u64::MAX);
    assert_eq!(g.snake().head_position(), pos(12, 10));
}

#[test]
fn game_resumed_on_collision_is_over() {
    let s = moved(&vec![Direction::Up; 11]);
    let g = game_at(s, pos(0, 0), 0);
    assert!(g.is_game_over());
}

#[test]
fn pick_cell_takes_first_free_draw() {
    let s = Snake::new();
    let draws = vec![pos(10, 10), pos(3, 4), pos(5, 5)];
    assert_eq!(pick_cell(&draws, &s, pos(7, 7)), pos(3, 4));
    let draws = vec![pos(6, 1), pos(10, 10)];
    assert_eq!(pick_cell(&draws, &s, pos(7, 7)), pos(6, 1));
}

#[test]
fn pick_cell_scans_rows_when_draws_are_taken() {
    let s = Snake::new();
    assert_eq!(pick_cell(&vec![pos(10, 10), pos(10, 10)], &s, pos(7, 7)), pos(0, 0));
    assert_eq!(pick_cell(&Vec::new(), &s, pos(7, 7)), pos(0, 0));
    // Cover the top row from x = 0 to x = 10.
    let mut t = Snake::new();
    for d in [vec![Direction::Up; 10], vec![Direction::Left; 10]].concat() {
        t.grow();
        t.change_direction(d);
        t.update();
    }
    assert_eq!(t.head_position(), pos(0, 0));
    assert_eq!(pick_cell(&vec![pos(0, 0), pos(4, 0)], &t, pos(0, 0)), pos(11, 0));
}
