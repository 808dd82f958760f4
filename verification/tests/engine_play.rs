use tetris_engine::engine::Engine;
use tetris_engine::types::{Action, Config, Direction, Input, Orientation};

fn instant() -> Config {
    Config { spawn: 0, ..Config::default() }
}

fn step(e: &mut Engine, inputs: &[Input]) {
    assert!(e.has_headroom(inputs.len()));
    e.update(inputs);
}

fn occupied(e: &Engine) -> usize {
    e.pile().iter().map(|r| r.iter().filter(|c| c.is_some()).count()).sum()
}

#[test]
fn fps_constant() {
    assert_eq!(Engine::FPS, 60);
}

#[test]
fn delayed_first_spawn() {
    let mut e = Engine::new(1, Config::default());
    assert!(e.active_piece().is_none());
    assert!(e.ghost_piece().is_none());
    assert_eq!(e.frame(), 0);
    for _ in 0..59 {
        step(&mut e, &[]);
        assert!(e.active_piece().is_none());
    }
    step(&mut e, &[]);
    assert!(e.active_piece().is_some());
    assert_eq!(e.frame(), 60);
}

#[test]
fn immediate_spawn_drops_one_row() {
    let e = Engine::new(2, instant());
    let p = e.active_piece().unwrap();
    assert_eq!(p.orientation, Orientation::N);
    assert_eq!(p.x, 4);
    assert_eq!(p.y, 21);
    assert!(!e.game_over());
}

#[test]
fn next_queue_shows_five_and_feeds_spawns() {
    let mut e = Engine::new(3, instant());
    for _ in 0..10 {
        let upcoming = e.next_queue();
        assert_eq!(upcoming.len(), 5);
        step(&mut e, &[Input::Begin(Action::Harddrop)]);
        if e.game_over() {
            break;
        }
        assert_eq!(e.active_piece().unwrap().kind, upcoming[0]);
    }
}

#[test]
fn ghost_lands_on_the_floor_of_an_empty_pile() {
    let e = Engine::new(4, instant());
    let a = e.active_piece().unwrap();
    let g = e.ghost_piece().unwrap();
    assert_eq!(g.kind, a.kind);
    assert_eq!(g.orientation, a.orientation);
    assert_eq!(g.x, a.x);
    assert_eq!(g.lowest_y(), 0);
}

#[test]
fn hard_drop_locks_four_blocks_where_the_ghost_was() {
    let mut e = Engine::new(5, instant());
    let g = e.ghost_piece().unwrap();
    step(&mut e, &[Input::Begin(Action::Harddrop)]);
    assert_eq!(occupied(&e), 4);
    for (x, y) in g.blocks {
        assert!(e.pile()[y as usize][x as usize].is_some());
    }
    assert_eq!(e.frame_outcome().lines_cleared, 0);
    assert!(!e.frame_outcome().tspin);
    assert_eq!(e.combo(), 0);
    assert_eq!(e.back_to_back(), 0);
}

#[test]
fn moves_shift_the_piece() {
    let mut e = Engine::new(6, Config { spawn: 0, das: 100, ..Config::default() });
    let x0 = e.active_piece().unwrap().x;
    step(&mut e, &[Input::Begin(Action::Move(Direction::Left))]);
    assert_eq!(e.active_piece().unwrap().x, x0 - 1);
    step(&mut e, &[Input::End(Action::Move(Direction::Left)), Input::Begin(Action::Move(Direction::Right))]);
    assert_eq!(e.active_piece().unwrap().x, x0);
    step(&mut e, &[Input::End(Action::Move(Direction::Right))]);
    assert_eq!(e.active_piece().unwrap().x, x0);
}

#[test]
fn auto_repeat_slides_to_the_wall() {
    let mut e = Engine::new(7, Config { spawn: 0, das: 2, arr: 0, ..Config::default() });
    step(&mut e, &[Input::Begin(Action::Move(Direction::Left))]);
    step(&mut e, &[]);
    step(&mut e, &[]);
    let p = e.active_piece().unwrap();
    assert_eq!(p.blocks.iter().map(|b| b.0).min().unwrap(), 0);
}

#[test]
fn rotation_turns_the_piece() {
    let mut e = Engine::new(8, instant());
    let kind = e.active_piece().unwrap().kind;
    step(&mut e, &[Input::Begin(Action::Rotate(Direction::Right))]);
    assert_eq!(e.active_piece().unwrap().orientation, Orientation::E);
    assert_eq!(e.active_piece().unwrap().kind, kind);
    step(&mut e, &[Input::Begin(Action::Flip)]);
    assert_eq!(e.active_piece().unwrap().orientation, Orientation::W);
    step(&mut e, &[Input::Begin(Action::Rotate(Direction::Left))]);
    assert_eq!(e.active_piece().unwrap().orientation, Orientation::S);
}

#[test]
fn hold_swaps_once_per_piece() {
    let mut e = Engine::new(9, instant());
    let first = e.active_piece().unwrap().kind;
    let upcoming = e.next_queue();
    step(&mut e, &[Input::Begin(Action::Hold)]);
    let h = e.hold().clone().unwrap();
    assert_eq!(h.kind, first);
    assert!(h.is_locked);
    assert_eq!(e.active_piece().unwrap().kind, upcoming[0]);
    let second = e.active_piece().unwrap();
    step(&mut e, &[Input::Begin(Action::Hold)]);
    assert_eq!(e.active_piece().unwrap().kind, second.kind);
    step(&mut e, &[Input::Begin(Action::Harddrop)]);
    assert!(!e.hold().clone().unwrap().is_locked);
    step(&mut e, &[Input::Begin(Action::Hold)]);
    assert_eq!(e.active_piece().unwrap().kind, first);
}

#[test]
fn soft_drop_with_zero_delay_lands_immediately() {
    let mut e = Engine::new(10, instant());
    step(&mut e, &[Input::Begin(Action::Softdrop)]);
    let a = e.active_piece().unwrap();
    assert_eq!(a.lowest_y(), 0);
}

#[test]
fn gravity_moves_down_after_its_delay() {
    let mut e = Engine::new(11, Config { spawn: 0, gravity: 3, ..Config::default() });
    let y0 = e.active_piece().unwrap().y;
    step(&mut e, &[]);
    step(&mut e, &[]);
    assert_eq!(e.active_piece().unwrap().y, y0);
    step(&mut e, &[]);
    assert_eq!(e.active_piece().unwrap().y, y0 - 1);
}

#[test]
fn garbage_is_queued_and_pushed_on_lock() {
    let mut e = Engine::new(12, instant());
    e.queue_garbage(2);
    e.queue_garbage(1);
    assert_eq!(e.garbage_queue(), vec![2, 1]);
    step(&mut e, &[Input::Begin(Action::Harddrop)]);
    assert!(e.garbage_queue().is_empty());
    // Three garbage rows, each with exactly one hole, under the locked piece.
    for y in 0..3 {
        assert_eq!(e.pile()[y].iter().filter(|c| c.is_none()).count(), 1);
    }
    assert_eq!(occupied(&e), 3 * 9 + 4);
}

#[test]
fn garbage_waits_through_frames_without_a_lock() {
    let mut e = Engine::new(17, instant());
    e.queue_garbage(3);
    step(&mut e, &[Input::Begin(Action::Move(Direction::Left)), Input::End(Action::Move(Direction::Left))]);
    step(&mut e, &[Input::Begin(Action::Rotate(Direction::Right))]);
    assert_eq!(e.garbage_queue(), vec![3]);
    assert_eq!(occupied(&e), 0);
    step(&mut e, &[Input::Begin(Action::Harddrop)]);
    assert!(e.garbage_queue().is_empty());
    assert_eq!(occupied(&e), 3 * 9 + 4);
}

#[test]
fn garbage_queue_holds_at_most_forty() {
    let mut e = Engine::new(13, Config::default());
    for _ in 0..45 {
        e.queue_garbage(1);
    }
    assert_eq!(e.garbage_queue().len(), 40);
}

#[test]
fn stacking_in_the_middle_ends_the_game_and_freezes_it() {
    let mut e = Engine::new(14, instant());
    let mut n = 0;
    while !e.game_over() {
        step(&mut e, &[Input::Begin(Action::Harddrop)]);
        n += 1;
        assert!(n < 200);
    }
    let pile = *e.pile();
    let frame = e.frame();
    let active = *e.active_piece();
    let queue = e.next_queue();
    step(&mut e, &[Input::Begin(Action::Move(Direction::Left)), Input::Begin(Action::Harddrop)]);
    assert!(e.game_over());
    assert_eq!(*e.pile(), pile);
    assert_eq!(e.frame(), frame);
    assert_eq!(*e.active_piece(), active);
    assert_eq!(e.next_queue(), queue);
    assert_eq!(e.frame_outcome().lines_cleared, 0);
}

#[test]
fn frame_counts_updates() {
    let mut e = Engine::new(15, Config::default());
    for i in 1..=10 {
        step(&mut e, &[]);
        assert_eq!(e.frame(), i);
    }
}

#[test]
fn fresh_engine_has_headroom() {
    let e = Engine::new(16, Config::default());
    assert!(e.has_headroom(0));
    assert!(e.has_headroom(4096));
    assert!(!e.has_headroom(0x8000));
}

fn full_rows(e: &Engine) -> usize {
    e.pile().iter().filter(|r| r.iter().all(|c| c.is_some())).count()
}

fn grid(e: &Engine) -> Vec<Vec<bool>> {
    e.pile().iter().map(|r| r.iter().map(|c| c.is_some()).collect()).collect()
}

fn free(g: &[Vec<bool>], x: i32, y: i32) -> bool {
    (0..10).contains(&x) && (0..40).contains(&y) && !g[y as usize][x as usize]
}

/// Where `blocks` come to rest after sliding `dx` columns and dropping, if they can slide.
fn landing(g: &[Vec<bool>], blocks: &[(i32, i32); 4], dx: i32) -> Option<Vec<(i32, i32)>> {
    let step = if dx < 0 { -1 } else { 1 };
    let mut k = 0;
    loop {
        if !blocks.iter().all(|&(x, y)| free(g, x + k, y)) {
            return None;
        }
        if k == dx {
            break;
        }
        k += step;
    }
    let mut dy = 0;
    while blocks.iter().all(|&(x, y)| free(g, x + dx, y - dy - 1)) {
        dy += 1;
    }
    Some(blocks.iter().map(|&(x, y)| (x + dx, y - dy)).collect())
}

/// Rows completed, covered holes and height of a landing: smaller is better.
fn cost(g: &[Vec<bool>], cells: &[(i32, i32)]) -> (i32, i32, i32) {
    let mut after: Vec<Vec<bool>> = g.to_vec();
    for &(x, y) in cells {
        after[y as usize][x as usize] = true;
    }
    let lines = after.iter().filter(|r| r.iter().all(|&c| c)).count() as i32;
    let mut holes = 0;
    for x in 0..10 {
        let mut roof = false;
        for y in (0..40).rev() {
            if after[y][x] {
                roof = true;
            } else if roof {
                holes += 1;
            }
        }
    }
    let height = cells.iter().map(|&(_, y)| y).max().unwrap();
    (-lines, holes, height)
}

/// The best slide for the piece in play as it stands, and its cost.
fn best_slide(e: &Engine) -> Option<(i32, (i32, i32, i32))> {
    let g = grid(e);
    let p = e.active_piece().unwrap();
    (-9..=9).filter_map(|dx| landing(&g, &p.blocks, dx).map(|c| (dx, cost(&g, &c)))).min_by_key(|&(_, c)| c)
}

fn slide_and_drop(dx: i32) -> Vec<Input> {
    let d = if dx < 0 { Direction::Left } else { Direction::Right };
    let mut v = Vec::new();
    for _ in 0..dx.abs() {
        v.push(Input::Begin(Action::Move(d)));
        v.push(Input::End(Action::Move(d)));
    }
    v.push(Input::Begin(Action::Harddrop));
    v
}

/// Plays one piece greedily: tries the four facings (one frame each), then turns to the
/// best one, slides and drops. Returns false when no piece is in play.
fn play_piece(e: &mut Engine) -> bool {
    if e.active_piece().is_none() {
        return false;
    }
    let turn = [Input::Begin(Action::Rotate(Direction::Right))];
    let mut best: Option<(usize, (i32, i32, i32))> = None;
    for r in 0..4 {
        if r > 0 {
            step(e, &turn);
        }
        if let Some((_, c)) = best_slide(e) {
            if best.map_or(true, |(_, b)| c < b) {
                best = Some((r, c));
            }
        }
    }
    let (r, _) = best.unwrap_or((3, (0, 0, 0)));
    for _ in 0..(r + 1) % 4 {
        step(e, &turn);
    }
    let dx = best_slide(e).map_or(0, |(dx, _)| dx);
    step(e, &slide_and_drop(dx));
    true
}

fn slow() -> Config {
    Config { spawn: 0, gravity: 100_000, ..Config::default() }
}

#[test]
fn no_full_row_stays_without_a_clear_delay() {
    let mut e = Engine::new(21, slow());
    let mut cleared = 0;
    for _ in 0..200 {
        if e.game_over() || !play_piece(&mut e) {
            break;
        }
        assert_eq!(full_rows(&e), 0);
        cleared += e.frame_outcome().lines_cleared;
    }
    assert!(cleared > 0);
}

#[test]
fn full_rows_wait_only_while_no_piece_is_in_play() {
    let mut e = Engine::new(22, Config { line_clear: 20, ..slow() });
    let mut waited = false;
    for _ in 0..2000 {
        if e.game_over() {
            break;
        }
        if !play_piece(&mut e) {
            step(&mut e, &[]);
        }
        if full_rows(&e) > 0 {
            waited = true;
            assert!(e.active_piece().is_none());
        }
    }
    assert!(waited);
}

#[test]
fn rows_clear_before_a_later_spawn() {
    let mut e = Engine::new(23, Config { line_clear: 10, are: 25, ..slow() });
    for _ in 0..2000 {
        assert!(!e.game_over());
        if !play_piece(&mut e) {
            step(&mut e, &[]);
        }
        if full_rows(&e) > 0 {
            let mut frames = 0;
            while full_rows(&e) > 0 {
                assert!(e.active_piece().is_none());
                step(&mut e, &[]);
                frames += 1;
            }
            assert_eq!(frames, 10);
            assert!(e.active_piece().is_none());
            for _ in 0..15 {
                step(&mut e, &[]);
            }
            assert!(e.active_piece().is_some());
            return;
        }
    }
    panic!("no row was completed");
}

#[test]
fn grounded_piece_locks_after_the_lock_delay() {
    let mut e = Engine::new(24, instant());
    let kind = e.active_piece().unwrap().kind;
    step(&mut e, &[Input::Begin(Action::Softdrop), Input::End(Action::Softdrop)]);
    assert_eq!(e.active_piece().unwrap().lowest_y(), 0);
    assert_eq!(occupied(&e), 0);
    for _ in 0..29 {
        step(&mut e, &[]);
        assert_eq!(occupied(&e), 0);
        assert_eq!(e.active_piece().unwrap().kind, kind);
    }
    step(&mut e, &[]);
    assert_eq!(occupied(&e), 4);
    assert!(!e.game_over());
}

#[test]
fn a_frame_clears_at_most_four_rows() {
    let mut e = Engine::new(25, slow());
    for _ in 0..200 {
        if e.game_over() || !play_piece(&mut e) {
            break;
        }
        let lines = e.frame_outcome().lines_cleared;
        assert!((0..=4).contains(&lines));
    }
}

#[test]
fn finished_game_ignores_frames_without_headroom_checks() {
    let mut e = Engine::new(14, instant());
    while !e.game_over() {
        e.update(&[Input::Begin(Action::Harddrop)]);
    }
    let frame = e.frame();
    for _ in 0..5 {
        e.update(&[Input::Begin(Action::Hold)]);
    }
    assert!(e.game_over());
    assert_eq!(e.frame(), frame);
}

#[test]
fn auto_repeat_with_a_repeat_rate_moves_one_column_per_period() {
    let mut e = Engine::new(26, Config { spawn: 0, das: 6, arr: 2, gravity: 1000, ..Config::default() });
    let x0 = e.active_piece().unwrap().x;
    step(&mut e, &[Input::Begin(Action::Move(Direction::Right))]);
    assert_eq!(e.active_piece().unwrap().x, x0 + 1);
    for _ in 0..5 {
        step(&mut e, &[]);
        assert_eq!(e.active_piece().unwrap().x, x0 + 1);
    }
    step(&mut e, &[]);
    assert_eq!(e.active_piece().unwrap().x, x0 + 2);
    step(&mut e, &[]);
    assert_eq!(e.active_piece().unwrap().x, x0 + 2);
    step(&mut e, &[]);
    assert_eq!(e.active_piece().unwrap().x, x0 + 3);
}

#[test]
fn auto_repeat_without_a_repeat_rate_slides_to_the_wall_after_the_delay() {
    let mut e = Engine::new(0, instant());
    step(&mut e, &[Input::Begin(Action::Move(Direction::Left))]);
    assert_eq!(e.active_piece().unwrap().x, 3);
    for _ in 0..5 {
        step(&mut e, &[]);
        assert_eq!(e.active_piece().unwrap().x, 3);
    }
    step(&mut e, &[]);
    let p = e.active_piece().unwrap();
    assert_eq!(e.frame(), 7);
    assert!(!e.game_over());
    assert_eq!(p.orientation, Orientation::N);
    assert_eq!(p.y, 21);
    assert_eq!(p.blocks.iter().map(|b| b.0).min(), Some(0));
}

#[test]
fn buffered_rotation_turns_the_next_spawn() {
    let mut e = Engine::new(27, Config { spawn: 3, ..Config::default() });
    step(&mut e, &[Input::Begin(Action::Rotate(Direction::Right))]);
    step(&mut e, &[]);
    assert!(e.active_piece().is_none());
    step(&mut e, &[]);
    let p = e.active_piece().unwrap();
    assert_eq!(p.orientation, Orientation::E);
}

#[test]
fn buffered_hold_holds_the_first_spawned_piece() {
    let mut e = Engine::new(28, Config { spawn: 3, ..Config::default() });
    let first = e.next_queue()[0];
    let second = e.next_queue()[1];
    step(&mut e, &[Input::Begin(Action::Hold)]);
    step(&mut e, &[]);
    step(&mut e, &[]);
    let h = e.hold().unwrap();
    assert_eq!(h.kind, first);
    assert!(h.is_locked);
    assert_eq!(e.active_piece().unwrap().kind, second);
}

#[test]
fn rows_of_one_garbage_batch_share_their_hole() {
    let mut e = Engine::new(29, instant());
    e.queue_garbage(3);
    e.queue_garbage(2);
    step(&mut e, &[Input::Begin(Action::Harddrop)]);
    let p = e.pile();
    // The later batch lies at the bottom, the earlier one above it.
    assert_eq!(p[0], p[1]);
    assert_eq!(p[2], p[3]);
    assert_eq!(p[3], p[4]);
    for y in 0..5 {
        assert_eq!(p[y].iter().filter(|c| c.is_none()).count(), 1);
    }
}

#[test]
fn a_frame_applies_every_input_in_order() {
    let mut e = Engine::new(30, instant());
    let k2 = e.next_queue()[1];
    step(&mut e, &[Input::Begin(Action::Harddrop), Input::Begin(Action::Harddrop)]);
    assert_eq!(occupied(&e), 8);
    assert_eq!(e.active_piece().unwrap().kind, k2);
}

#[test]
fn same_seed_same_game() {
    let mut a = Engine::new(31, instant());
    let mut b = Engine::new(31, instant());
    for i in 0..40 {
        let inputs = if i % 3 == 0 {
            vec![Input::Begin(Action::Move(Direction::Left)), Input::Begin(Action::Harddrop)]
        } else {
            vec![Input::Begin(Action::Rotate(Direction::Right)), Input::Begin(Action::Harddrop)]
        };
        a.queue_garbage((i % 3) as i32);
        b.queue_garbage((i % 3) as i32);
        step(&mut a, &inputs);
        step(&mut b, &inputs);
        assert_eq!(a.pile(), b.pile());
        assert_eq!(a.active_piece(), b.active_piece());
        assert_eq!(a.next_queue(), b.next_queue());
        assert_eq!(a.game_over(), b.game_over());
    }
}
