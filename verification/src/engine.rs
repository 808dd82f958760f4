//! The game engine: one `update` per frame turns timers and player inputs into
//! piece movement, locking, line clears, holds, spawns and garbage.
use vstd::prelude::*;
use crate::piece::{lemma_piece_determined, placed_block, Piece};
use crate::pile::{holed_at, batches_alike, cleared, count_full, garbage_pushed, garbage_total, rows_below_batch, in_bounds, lemma_count_full_zero, lemma_written_unique, written, Pile, Row};
use crate::queue::{bag_order, garbage_deque_items, is_bag, pulled, GarbageDeque, NextQueue, GARBAGE_CAPACITY};
use crate::random::{range_draw, Draw, PRNG};
use crate::tables::{kick, kick_offset, lemma_block_offsets_shape};
use crate::timer::{fires, ticked, Timer};
use crate::types::{
    direction_offset, rotated, Action, Cell, Config, Direction, FrameOutcome, HoldPiece, Input, Orientation, PieceKind,
};
use crate::{GRID_HEIGHT, PILE_HEIGHT, PILE_WIDTH};

verus! {

/// The most engine steps (calls of the mutually recursive movement, lock and spawn
/// routines, and iterations of the auto-repeat loop) that the timer part of a frame,
/// and each input of it, may take. Every step that would go beyond it is skipped.
pub const STEP_BUDGET: u32 = 0x1_0000;

/// Frames after which a grounded piece locks.
pub const LOCK_DELAY: u32 = 30;

/// Moves or rotations allowed without the piece reaching a new lowest row before it is
/// forced down or locked.
pub const MAX_RESETS: i32 = 15;

/// Which horizontal moves are held and which one auto-repeats.
#[derive(Debug, Clone, Copy, PartialEq, Eq, Structural)]
pub struct MovementState {
    pub das: Option<Direction>,
    pub move_left: bool,
    pub move_right: bool,
    pub soft_dropping: bool,
}

/// Hold and rotation requests made while no piece is in play; applied at the next spawn.
#[derive(Debug, Clone, Copy, PartialEq, Eq, Structural)]
pub struct BufferedInputs {
    pub hold: bool,
    pub rotation: i32,
}

/// How one input changes the held horizontal moves, the auto-repeat direction and soft
/// dropping: a pressed direction becomes the auto-repeat direction; releasing it hands
/// auto-repeat to the other direction if that one is still held.
pub open spec fn movement_step(m: MovementState, input: Input) -> MovementState {
    match input {
        Input::Begin(Action::Move(Direction::Left)) => MovementState {
            move_left: true,
            das: Some(Direction::Left),
            ..m
        },
        Input::Begin(Action::Move(Direction::Right)) => MovementState {
            move_right: true,
            das: Some(Direction::Right),
            ..m
        },
        Input::End(Action::Move(Direction::Left)) => MovementState {
            move_left: false,
            das: if m.move_right {
                Some(Direction::Right)
            } else {
                None
            },
            ..m
        },
        Input::End(Action::Move(Direction::Right)) => MovementState {
            move_right: false,
            das: if m.move_left {
                Some(Direction::Left)
            } else {
                None
            },
            ..m
        },
        Input::Begin(Action::Softdrop) => MovementState { soft_dropping: true, ..m },
        Input::End(Action::Softdrop) => MovementState { soft_dropping: false, ..m },
        _ => m,
    }
}

/// The movement state after the inputs, applied in order.
pub open spec fn movement_after(m: MovementState, inputs: Seq<Input>) -> MovementState
    decreases inputs.len(),
{
    if inputs.len() == 0 {
        m
    } else {
        movement_step(movement_after(m, inputs.drop_last()), inputs.last())
    }
}

/// A piece of kind `kind` facing `o` with its pivot at `(x, y)` lies inside `pile` on
/// empty cells only.
pub open spec fn fits_at(pile: Pile, kind: PieceKind, o: Orientation, x: int, y: int) -> bool {
    forall|i: int|
        0 <= i < 4 ==> !pile.blocked(
            #[trigger] placed_block(kind, o, x, y, i).0,
            placed_block(kind, o, x, y, i).1,
        )
}

/// `p` lies inside `pile` on empty cells only.
pub open spec fn fits(pile: Pile, p: Piece) -> bool {
    fits_at(pile, p.kind, p.orientation, p.x as int, p.y as int)
}

/// `g` is where `a` lands when dropped straight down in `pile`: every row from `a` down to
/// `g` is free, and the row below `g` is not.
pub open spec fn is_hard_drop(pile: Pile, a: Piece, g: Piece) -> bool {
    &&& g.kind == a.kind
    &&& g.orientation == a.orientation
    &&& g.x == a.x
    &&& g.y <= a.y
    &&& g.wf()
    &&& forall|k: int| g.y <= k <= a.y ==> #[trigger] fits_at(pile, a.kind, a.orientation, a.x as int, k)
    &&& !fits_at(pile, a.kind, a.orientation, a.x as int, g.y - 1)
}

/// Kick test `n` of turning `a` by `count` quarter turns lands on free cells of `pile`.
pub open spec fn kick_fits(pile: Pile, a: Piece, count: int, n: int) -> bool {
    fits_at(
        pile,
        a.kind,
        rotated(a.orientation, count),
        a.x + kick(a.kind, a.orientation, count, n).0,
        a.y + kick(a.kind, a.orientation, count, n).1,
    )
}

/// The combo counter after a lock that clears `lines` rows.
pub open spec fn next_combo(combo: Option<i32>, lines: int) -> Option<i32> {
    if lines > 0 {
        match combo {
            Some(c) => Some((c + 1) as i32),
            None => Some(0),
        }
    } else {
        None
    }
}

/// The back-to-back counter after a lock that clears `lines` rows, with or without a T-spin:
/// four rows or a T-spin line clear extend the streak, any other line clear ends it, and
/// a lock without a line clear leaves it alone.
pub open spec fn next_back_to_back(b2b: Option<i32>, lines: int, tspin: bool) -> Option<i32> {
    if lines > 0 {
        if lines == 4 || tspin {
            match b2b {
                Some(b) => Some((b + 1) as i32),
                None => Some(0),
            }
        } else {
            None
        }
    } else {
        b2b
    }
}

/// The pivot row where a new piece of kind `kind` comes to rest in `pile` right after it
/// spawns at row 22: one row lower if it fits there.
pub open spec fn spawn_row(pile: Pile, kind: PieceKind) -> int {
    if fits_at(pile, kind, Orientation::N, 4, 21) {
        21
    } else {
        22
    }
}

/// The kick result of a rotation, read through the engine's getters.
proof fn lemma_turned(e1: Engine, e0: Engine, count: int)
    requires
        e1.pile == e0.pile,
        e0.active_piece matches Some(a) ==> {
            &&& (forall|n: int| 0 <= n < 5 ==> !#[trigger] kick_fits(e0.pile, a, count, n))
                ==> e1.active_piece == Some(a)
            &&& forall|n: int|
                0 <= n < 5 && #[trigger] kick_fits(e0.pile, a, count, n) && (forall|m: int|
                    0 <= m < n ==> !kick_fits(e0.pile, a, count, m)) ==> (e1.active_piece matches Some(q)
                    && a.moved(q, kick(a.kind, a.orientation, count, n).0 as int, kick(a.kind, a.orientation, count, n).1 as int, count))
        },
    ensures
        e1.turned(e0, count),
{
    if let Some(a) = e0.active_piece {
        let pile = e0.pile;
        assert(e0.spec_pile() == pile);
        assert forall|n: int|
            0 <= n < 5 && #[trigger] kick_fits(e0.spec_pile(), a, count, n) && (forall|m: int|
                0 <= m < n ==> !kick_fits(e0.spec_pile(), a, count, m)) implies (e1.spec_active_piece() matches Some(q)
            && a.moved(q, kick(a.kind, a.orientation, count, n).0 as int, kick(a.kind, a.orientation, count, n).1 as int, count)) by {
            assert(kick_fits(pile, a, count, n));
            assert forall|m: int| 0 <= m < n implies !kick_fits(pile, a, count, m) by {
                assert(!kick_fits(e0.spec_pile(), a, count, m));
            }
        }
        if forall|n: int| 0 <= n < 5 ==> !#[trigger] kick_fits(e0.spec_pile(), a, count, n) {
            assert forall|n: int| 0 <= n < 5 implies !#[trigger] kick_fits(pile, a, count, n) by {
                assert(!kick_fits(e0.spec_pile(), a, count, n));
            }
        }
    }
}

/// `states` are the game before each of `inputs` and after the last one: every one of
/// them keeps the engine's invariant, and each input has the effect that `input_result`
/// states on the state before it.
pub open spec fn inputs_applied(states: Seq<Engine>, inputs: Seq<Input>) -> bool {
    &&& states.len() == inputs.len() + 1
    &&& forall|i: int| 0 <= i < inputs.len() ==> #[trigger] states[i + 1].input_result(states[i], inputs[i])
    &&& forall|i: int| 0 <= i < states.len() ==> #[trigger] states[i].wf()
}

/// `r` is piece `a` turned `count` quarter turns clockwise in `pile` with the first of
/// the five kick tests that fits, or `a` itself when none fits.
pub open spec fn kicked(pile: Pile, a: Piece, count: int, r: Option<Piece>) -> bool {
    &&& (forall|n: int| 0 <= n < 5 ==> !#[trigger] kick_fits(pile, a, count, n)) ==> r == Some(a)
    &&& forall|n: int|
        0 <= n < 5 && #[trigger] kick_fits(pile, a, count, n) && (forall|m: int|
            0 <= m < n ==> !kick_fits(pile, a, count, m)) ==> (r matches Some(q) && a.moved(
            q,
            kick(a.kind, a.orientation, count, n).0 as int,
            kick(a.kind, a.orientation, count, n).1 as int,
            count,
        ))
}

/// The effect of an input does not depend on the counter bounds of the earlier state.
proof fn lemma_input_result_ceiling(e: Engine, h: Engine, m: Engine, input: Input)
    requires
        e.input_result(h, input),
        h == (Engine { ceiling: h.ceiling, rotation_ceiling: h.rotation_ceiling, ..m }),
    ensures
        e.input_result(m, input),
{
    assert(h.spec_pile() == m.spec_pile());
    assert(h.spec_active_piece() == m.spec_active_piece());
    assert(h.spec_ghost_piece() == m.spec_ghost_piece());
    assert(h.spec_resets() == m.spec_resets());
    assert(h.spec_timers() == m.spec_timers());
    assert(h.spec_next_pieces() == m.spec_next_pieces());
    assert(h.spec_garbage() == m.spec_garbage());
}

/// The lock outcome depends only on what the getters of the earlier state show.
proof fn lemma_lock_result_same_view(e: Engine, m: Engine, o: Engine, g: Piece)
    requires
        e.lock_result(m, g),
        e.spawn_after_lock(m, g),
        m.next_queue == o.next_queue,
        m.movement == o.movement,
        m.game_over == o.game_over,
        m.garbage_rng == o.garbage_rng,
        m.pile == o.pile,
        m.buffered_inputs == o.buffered_inputs,
        m.hold == o.hold,
        m.combo == o.combo,
        m.back_to_back == o.back_to_back,
        m.last_input_was_rotate == o.last_input_was_rotate,
        m.config == o.config,
        m.garbage_queue == o.garbage_queue,
    ensures
        e.lock_result(o, g),
        e.spawn_after_lock(o, g),
{
    assert(m.spec_next_pieces() == o.spec_next_pieces());
    assert(m.spec_pile() == o.spec_pile());
    assert(m.spec_garbage() == o.spec_garbage());
}

/// No timer of the five fires on the next tick.
pub open spec fn quiet(t: (u32, u32, u32, u32, u32)) -> bool {
    !fires(t.0) && !fires(t.1) && !fires(t.2) && !fires(t.3) && !fires(t.4)
}

/// The generator history `history` followed by `k` draws of a hole column from `0..10`.
pub open spec fn hole_draws(history: Seq<Draw>, k: int) -> Seq<Draw> {
    history + Seq::new(k as nat, |i: int| Draw::Range(0, 10))
}

/// Each garbage batch `j` of `batches`, pushed into `p` in queue order by a generator
/// seeded with `seed` that had served `history`, has its rows holed at the column of the
/// `j`-th hole draw.
pub open spec fn batches_holed(p: Pile, batches: Seq<i32>, seed: u64, history: Seq<Draw>) -> bool {
    forall|j: int, y: int|
        0 <= j < batches.len() && rows_below_batch(batches, j) <= y < rows_below_batch(batches, j) + batches[j] && y
            < PILE_HEIGHT ==> #[trigger] holed_at(p.0[y], range_draw(seed, hole_draws(history, j), 0, 10) as int)
}

/// Releasing a move key while the other one is still held hands auto-repeat over to the
/// held key at the full auto-repeat delay; releasing it while neither is held stops
/// auto-repeat.
pub proof fn lemma_release_hands_over_auto_repeat(after: Engine, before: Engine, d: Direction)
    requires
        after.input_result(before, Input::End(Action::Move(d))),
    ensures
        (match d {
            Direction::Left => before.spec_movement().move_right,
            Direction::Right => before.spec_movement().move_left,
        }) ==> after.spec_timers().3 == before.spec_config().das,
        !(match d {
            Direction::Left => before.spec_movement().move_right,
            Direction::Right => before.spec_movement().move_left,
        }) ==> after.spec_timers().3 == 0,
        after.spec_active_piece() == before.spec_active_piece(),
        after.spec_pile() == before.spec_pile(),
{
}

/// After a lock, every row of the `j`-th queued garbage batch is garbage in every column
/// but one, and the empty column is the `j`-th column drawn from `0..10` by the garbage
/// generator (seeded and used as `before` shows).
pub proof fn lemma_garbage_hole_columns(after: Engine, before: Engine, g: Piece, j: int, y: int)
    requires
        after.lock_result(before, g),
        g.low() < GRID_HEIGHT,
        !before.spec_buffered().hold || !after.spec_game_over(),
        0 <= j < before.spec_garbage().len(),
        rows_below_batch(before.spec_garbage(), j) <= y < rows_below_batch(before.spec_garbage(), j)
            + before.spec_garbage()[j],
        y < PILE_HEIGHT,
    ensures
        ({
            let c = range_draw(before.spec_garbage_rng().0, hole_draws(before.spec_garbage_rng().1, j), 0, 10) as int;
            forall|x: int|
                0 <= x < PILE_WIDTH ==> #[trigger] after.spec_pile().cell(x, y) == (if x == c {
                    None
                } else {
                    Some(Cell::Garbage)
                })
        }),
{
    let c = range_draw(before.spec_garbage_rng().0, hole_draws(before.spec_garbage_rng().1, j), 0, 10) as int;
    assert(holed_at(after.spec_pile().0[y], c));
}

/// The held-key rules: pressing a move key holds it and makes it the auto-repeat
/// direction; releasing it hands auto-repeat to the other key if that one is still held and
/// stops it otherwise; soft drop is held from press to release; other inputs change none of
/// this.
pub proof fn lemma_movement_rules(m: MovementState, input: Input)
    ensures
        input == Input::Begin(Action::Move(Direction::Left)) ==> movement_step(m, input).move_left
            && movement_step(m, input).das == Some(Direction::Left) && movement_step(m, input).move_right
            == m.move_right,
        input == Input::Begin(Action::Move(Direction::Right)) ==> movement_step(m, input).move_right
            && movement_step(m, input).das == Some(Direction::Right) && movement_step(m, input).move_left
            == m.move_left,
        input == Input::End(Action::Move(Direction::Left)) ==> !movement_step(m, input).move_left
            && movement_step(m, input).das == (if m.move_right {
            Some(Direction::Right)
        } else {
            None
        }),
        input == Input::End(Action::Move(Direction::Right)) ==> !movement_step(m, input).move_right
            && movement_step(m, input).das == (if m.move_left {
            Some(Direction::Left)
        } else {
            None
        }),
        input == Input::Begin(Action::Softdrop) ==> movement_step(m, input).soft_dropping,
        input == Input::End(Action::Softdrop) ==> !movement_step(m, input).soft_dropping,
        !(input matches Input::Begin(Action::Move(_))) && !(input matches Input::End(Action::Move(_))) && !(
        input matches Input::Begin(Action::Softdrop)) && !(input matches Input::End(Action::Softdrop)) ==> movement_step(
            m,
            input,
        ) == m,
{
}

/// Frames from a lock that clears `lines` rows to the next spawn.
pub open spec fn spawn_delay_after(c: Config, lines: int) -> u32 {
    if lines > 0 {
        if c.line_clear > c.are {
            c.line_clear
        } else {
            c.are
        }
    } else {
        c.are
    }
}

/// After a lock that clears rows the next piece waits for both the line-clear delay and
/// the spawn delay (the longer of the two); after one that clears none, for the spawn
/// delay alone.
pub proof fn lemma_spawn_delay_rules(c: Config, lines: int)
    ensures
        lines > 0 ==> spawn_delay_after(c, lines) >= c.line_clear && spawn_delay_after(c, lines) >= c.are && (
        spawn_delay_after(c, lines) == c.line_clear || spawn_delay_after(c, lines) == c.are),
        lines <= 0 ==> spawn_delay_after(c, lines) == c.are,
{
}

/// The back-to-back rules, by rows cleared: a lock that clears no row leaves the streak
/// alone; one that clears one, two or three rows without a T-spin ends it; one that
/// clears four rows, or any rows with a T-spin, starts it at 0 or extends it by one.
pub proof fn lemma_back_to_back_rules(b2b: Option<i32>, lines: int, tspin: bool)
    requires
        0 <= lines <= 4,
        b2b matches Some(v) ==> 0 <= v < i32::MAX,
    ensures
        lines == 0 ==> next_back_to_back(b2b, lines, tspin) == b2b,
        1 <= lines <= 3 && !tspin ==> next_back_to_back(b2b, lines, tspin) is None,
        lines == 4 || (1 <= lines && tspin) ==> next_back_to_back(b2b, lines, tspin) == Some(
            match b2b {
                Some(v) => (v + 1) as i32,
                None => 0i32,
            },
        ),
{
}

/// The combo rules, by rows cleared: a lock that clears no row ends the combo; one that
/// clears rows starts it at 0 or extends it by one.
pub proof fn lemma_combo_rules(combo: Option<i32>, lines: int)
    requires
        0 <= lines <= 4,
        combo matches Some(v) ==> 0 <= v < i32::MAX,
    ensures
        lines == 0 ==> next_combo(combo, lines) is None,
        1 <= lines ==> next_combo(combo, lines) == Some(
            match combo {
                Some(v) => (v + 1) as i32,
                None => 0i32,
            },
        ),
{
}

/// The held piece, unlocked.
pub open spec fn unlocked(hold: Option<HoldPiece>) -> Option<HoldPiece> {
    match hold {
        Some(h) => Some(HoldPiece { kind: h.kind, is_locked: false }),
        None => None,
    }
}

/// A well-formed piece collides with the pile exactly when it does not fit.
pub proof fn lemma_collision_iff_misfit(pile: Pile, p: Piece)
    requires
        p.wf(),
    ensures
        (exists|i: int| 0 <= i < p.blocks@.len() && pile.blocked(p.blocks@[i].0 as int, p.blocks@[i].1 as int))
            <==> !fits(pile, p),
{
    let k = p.kind;
    let o = p.orientation;
    let x = p.x as int;
    let y = p.y as int;
    if !fits(pile, p) {
        let i = choose|i: int| 0 <= i < 4 && pile.blocked(placed_block(k, o, x, y, i).0, placed_block(k, o, x, y, i).1);
        assert(p.blocks@[i] == p.blocks[i]);
        assert(placed_block(k, o, x, y, i) == (p.blocks[i].0 as int, p.blocks[i].1 as int));
    }
    if exists|i: int| 0 <= i < p.blocks@.len() && pile.blocked(p.blocks@[i].0 as int, p.blocks@[i].1 as int) {
        let i = choose|i: int| 0 <= i < p.blocks@.len() && pile.blocked(p.blocks@[i].0 as int, p.blocks@[i].1 as int);
        assert(p.blocks@[i] == p.blocks[i]);
        assert(placed_block(k, o, x, y, i) == (p.blocks[i].0 as int, p.blocks[i].1 as int));
    }
}

/// Every block of `p` lies inside the pile.
pub open spec fn blocks_in_bounds(p: Piece) -> bool {
    forall|i: int| 0 <= i < 4 ==> in_bounds(#[trigger] p.blocks[i].0 as int, p.blocks[i].1 as int)
}

/// The whole game state.
pub struct Engine {
    config: Config,
    frame: i32,
    pile: Pile,
    active_piece: Option<Piece>,
    ghost_piece: Option<Piece>,
    hold: Option<HoldPiece>,
    next_queue: NextQueue,
    movement: MovementState,
    spawn_timer: Timer,
    fall_timer: Timer,
    das_timer: Timer,
    line_clear_timer: Timer,
    lock_timer: Timer,
    lowest_y: i32,
    resets: i32,
    game_over: bool,
    combo: Option<i32>,
    back_to_back: Option<i32>,
    frame_outcome: FrameOutcome,
    last_input_was_rotate: bool,
    buffered_inputs: BufferedInputs,
    garbage_rng: PRNG,
    garbage_queue: GarbageDeque,
    /// Bound for the reset, combo and back-to-back counters over the steps left.
    ceiling: Ghost<int>,
    /// Bound for the buffered rotation over the steps left.
    rotation_ceiling: Ghost<int>,
}

impl Engine {
    /// Frames per second the timings are meant for.
    pub const FPS: i32 = 60;

    /// The configuration.
    pub closed spec fn spec_config(&self) -> Config {
        self.config
    }

    /// Frames played.
    pub closed spec fn spec_frame(&self) -> i32 {
        self.frame
    }

    /// The locked blocks.
    pub closed spec fn spec_pile(&self) -> Pile {
        self.pile
    }

    /// The piece in play.
    pub closed spec fn spec_active_piece(&self) -> Option<Piece> {
        self.active_piece
    }

    /// The held horizontal moves, the auto-repeat direction and soft dropping.
    pub closed spec fn spec_movement(&self) -> MovementState {
        self.movement
    }

    /// Where the piece in play would land.
    pub closed spec fn spec_ghost_piece(&self) -> Option<Piece> {
        self.ghost_piece
    }

    /// The held piece.
    pub closed spec fn spec_hold(&self) -> Option<HoldPiece> {
        self.hold
    }

    /// The upcoming pieces, front first.
    pub closed spec fn spec_next_pieces(&self) -> Seq<PieceKind> {
        self.next_queue.items()
    }

    /// The garbage batches waiting to be pushed in, oldest first.
    pub closed spec fn spec_garbage(&self) -> Seq<i32> {
        garbage_deque_items(self.garbage_queue)
    }

    /// The combo counter (`None` when no combo runs).
    pub closed spec fn spec_combo(&self) -> Option<i32> {
        self.combo
    }

    /// The back-to-back counter (`None` when no streak runs).
    pub closed spec fn spec_back_to_back(&self) -> Option<i32> {
        self.back_to_back
    }

    /// What happened in the last frame.
    pub closed spec fn spec_frame_outcome(&self) -> FrameOutcome {
        self.frame_outcome
    }

    /// Whether the game has ended.
    pub closed spec fn spec_game_over(&self) -> bool {
        self.game_over
    }

    /// Frames until the next piece spawns (0: no spawn is pending).
    pub closed spec fn spec_spawn_timer(&self) -> u32 {
        self.spawn_timer.0
    }

    /// The five frame timers, in the order a frame runs them: line clear, spawn, gravity,
    /// auto-repeat, lock delay (0: stopped).
    pub closed spec fn spec_timers(&self) -> (u32, u32, u32, u32, u32) {
        (self.line_clear_timer.0, self.spawn_timer.0, self.fall_timer.0, self.das_timer.0, self.lock_timer.0)
    }

    /// Moves and turns of the piece in play since it last reached a new lowest row.
    pub closed spec fn spec_resets(&self) -> i32 {
        self.resets
    }

    /// Hold and rotation requests waiting for the next spawn.
    pub closed spec fn spec_buffered(&self) -> BufferedInputs {
        self.buffered_inputs
    }

    /// Whether the last move of the piece in play was a rotation (for T-spins).
    pub closed spec fn spec_rotated_last(&self) -> bool {
        self.last_input_was_rotate
    }

    /// The delay before the piece in play falls a row: soft drop or gravity.
    pub open spec fn spec_fall_delay(&self) -> u32 {
        if self.spec_movement().soft_dropping {
            self.spec_config().softdrop
        } else {
            self.spec_config().gravity
        }
    }

    /// The piece in play of `before` moved `dx` columns and `dy` rows if it fits there,
    /// and stayed put otherwise; the pile is unchanged.
    pub open spec fn shifted(&self, before: Engine, dx: int, dy: int) -> bool {
        &&& self.spec_pile() == before.spec_pile()
        &&& before.spec_active_piece() matches Some(a) ==> {
            &&& fits_at(before.spec_pile(), a.kind, a.orientation, a.x + dx, a.y + dy) ==> (
            self.spec_active_piece() matches Some(q) && a.moved(q, dx, dy, 0))
            &&& !fits_at(before.spec_pile(), a.kind, a.orientation, a.x + dx, a.y + dy)
                ==> self.spec_active_piece() == Some(a)
        }
    }

    /// The piece in play of `before` turned `count` quarter turns clockwise with the first
    /// of the five kick tests that fits, or stayed put when none fits; the pile is
    /// unchanged.
    pub open spec fn turned(&self, before: Engine, count: int) -> bool {
        &&& self.spec_pile() == before.spec_pile()
        &&& before.spec_active_piece() matches Some(a) ==> kicked(before.spec_pile(), a, count, self.spec_active_piece())
    }

    /// The piece in play, `a` in `before`, slid along its row in the direction `off` (-1
    /// left, 1 right) as far as it fits, with the same kind and facing; the pile is
    /// unchanged.
    pub open spec fn slid(&self, before: Engine, a: Piece, off: int) -> bool {
        &&& self.spec_pile() == before.spec_pile()
        &&& self.spec_active_piece() matches Some(q) && q.kind == a.kind && q.orientation == a.orientation && q.y
            == a.y && (if off > 0 { q.x >= a.x } else { q.x <= a.x }) && !fits_at(
            before.spec_pile(),
            q.kind,
            q.orientation,
            q.x + off,
            q.y as int,
        )
    }

    /// `self` after locking `g` into the pile of `before`: a piece entirely above the visible
    /// grid ends the game and leaves the pile and garbage; otherwise (unless a buffered hold
    /// ended the game) the queued garbage is spent, the hold unlocked, the frame outcome,
    /// combo and back-to-back counters follow from the rows `g` completes and whether it
    /// was a T-spin, and the pile is the pile with `g` written in (its full rows cleared
    /// at once without a line-clear delay) pushed up by the queued garbage rows, the rows
    /// of one batch sharing their hole.
    pub open spec fn lock_result(&self, before: Engine, g: Piece) -> bool {
        &&& g.low() >= GRID_HEIGHT ==> self.spec_game_over() && self.spec_pile() == before.spec_pile()
            && self.spec_garbage() == before.spec_garbage()
        &&& g.low() < GRID_HEIGHT ==> (!before.spec_buffered().hold || !self.spec_game_over()) ==> {
            &&& self.spec_garbage() == Seq::<i32>::empty()
            &&& batches_alike(self.spec_pile(), before.spec_garbage())
            &&& batches_holed(
                self.spec_pile(),
                before.spec_garbage(),
                before.spec_garbage_rng().0,
                before.spec_garbage_rng().1,
            )
            &&& !before.spec_buffered().hold ==> self.spec_hold() == unlocked(before.spec_hold())
            &&& forall|p1: Pile|
                #[trigger] written(p1, before.spec_pile(), g) ==> {
                    let lines = count_full(p1.0@) as int;
                    let tspin = before.spec_rotated_last() && g.kind == PieceKind::T && p1.corner_count(
                        g.x as int,
                        g.y as int,
                    ) >= 3;
                    &&& self.spec_frame_outcome() == (FrameOutcome { tspin, lines_cleared: lines as i32 })
                    &&& self.spec_combo() == next_combo(before.spec_combo(), lines)
                    &&& self.spec_back_to_back() == next_back_to_back(before.spec_back_to_back(), lines, tspin)
                    &&& exists|pm: Pile|
                        (if lines > 0 && before.spec_config().line_clear == 0 {
                            cleared(p1, pm)
                        } else {
                            pm == p1
                        }) && #[trigger] garbage_pushed(pm, self.spec_pile(), garbage_total(before.spec_garbage()))
                }
        }
    }

    /// The state after the timer part of a frame begun in `before` (which runs and is
    /// not over): a frame where no timer fires only ticks them; gravity alone drops the
    /// piece a row, starting the lock delay when it lands; the auto-repeat timer alone shifts it a column (positive repeat rate)
    /// or slides it as far as it fits (zero repeat rate, at most 4 resets used); the spawn
    /// timer alone brings in the front of the queue; the line-clear timer alone clears
    /// the full rows; the lock timer alone locks a grounded piece.
    pub open spec fn timers_ran(&self, before: Engine) -> bool {
        let t = before.spec_timers();
        let das_dir = direction_offset(before.spec_movement().das.unwrap());
        let next = before.spec_next_pieces()[0];
        &&& quiet(t) ==> self.idle_after(before)
        &&& !fires(t.0) && !fires(t.1) && fires(t.2) && !fires(t.3) && !fires(t.4) && 0 <= before.spec_resets()
            < MAX_RESETS && before.spec_fall_delay() > 0 ==> self.shifted(before, 0, -1) && (
            before.spec_active_piece() matches Some(a) ==> fits_at(before.spec_pile(), a.kind, a.orientation, a.x as int, a.y - 1)
                ==> self.spec_timers().4 == (if fits_at(before.spec_pile(), a.kind, a.orientation, a.x as int, a.y - 2) {
                0
            } else {
                (LOCK_DELAY - 1) as u32
            }))
        &&& !fires(t.0) && fires(t.1) && !fires(t.2) && !fires(t.3) && !fires(t.4) && before.spec_active_piece() is None
            && fits_at(before.spec_pile(), next, Orientation::N, 4, 22) && before.spec_buffered() == (BufferedInputs {
            hold: false,
            rotation: 0,
        }) && before.spec_fall_delay() > 1 ==> {
            &&& !self.spec_game_over()
            &&& self.spec_active_piece() matches Some(a) && a.kind == next && a.orientation == Orientation::N && a.x
                == 4 && a.y == spawn_row(before.spec_pile(), next)
        }
        &&& fires(t.0) && !fires(t.1) ==> cleared(before.spec_pile(), self.spec_pile()) && self.spec_active_piece() is None
        &&& !fires(t.0) && !fires(t.1) && !fires(t.2) && fires(t.3) && !fires(t.4) && before.spec_config().arr > 0 && 0
            <= before.spec_resets() < MAX_RESETS ==> self.shifted(before, das_dir, 0)
        &&& !fires(t.0) && !fires(t.1) && !fires(t.2) && fires(t.3) && !fires(t.4) && before.spec_config().arr == 0 && 0
            <= before.spec_resets() <= 4 ==> (before.spec_active_piece() matches Some(a) ==> self.slid(before, a, das_dir))
        &&& !fires(t.0) && !fires(t.1) && !fires(t.2) && !fires(t.3) && fires(t.4) ==> (before.spec_active_piece() matches Some(
            a,
        ) ==> !fits_at(before.spec_pile(), a.kind, a.orientation, a.x as int, a.y - 1) ==> self.lock_result(before, a)
            && self.spawn_after_lock(before, a))
        &&& fires(t.1) && !fires(t.0) && !fits_at(before.spec_pile(), next, Orientation::N, 4, 22) ==> self.spec_game_over()
    }

    /// A frame that only ticks the timers: the game is as in `before`, every timer ticked
    /// once, and the frame outcome is reset.
    pub open spec fn idle_after(&self, before: Engine) -> bool {
        &&& self.spec_pile() == before.spec_pile()
        &&& self.spec_active_piece() == before.spec_active_piece()
        &&& self.spec_ghost_piece() == before.spec_ghost_piece()
        &&& self.spec_hold() == before.spec_hold()
        &&& self.spec_next_pieces() == before.spec_next_pieces()
        &&& self.spec_combo() == before.spec_combo()
        &&& self.spec_back_to_back() == before.spec_back_to_back()
        &&& self.spec_garbage() == before.spec_garbage()
        &&& self.spec_game_over() == before.spec_game_over()
        &&& self.spec_resets() == before.spec_resets()
        &&& self.spec_buffered() == before.spec_buffered()
        &&& self.spec_config() == before.spec_config()
        &&& self.spec_rotated_last() == before.spec_rotated_last()
        &&& self.spec_movement() == before.spec_movement()
        &&& self.spec_frame_outcome() == (FrameOutcome { tspin: false, lines_cleared: 0 })
        &&& self.spec_timers() == (
            ticked(before.spec_timers().0),
            ticked(before.spec_timers().1),
            ticked(before.spec_timers().2),
            ticked(before.spec_timers().3),
            ticked(before.spec_timers().4),
        )
    }

    /// The effect of one input on the game `before`: a turn (right 1, flip 2, left 3 quarter
    /// turns) uses the first kick that fits, a move shifts the piece one column if it fits
    /// (both while fewer than 15 resets are used), a hard drop locks the ghost, and a hold
    /// swaps the piece in play with the held piece (or the next piece) unless the hold is
    /// locked.
    pub open spec fn input_result(&self, before: Engine, input: Input) -> bool {
        &&& 0 <= before.spec_resets() < MAX_RESETS ==> {
            &&& input == Input::Begin(Action::Rotate(Direction::Right)) ==> self.turned(before, 1)
            &&& input == Input::Begin(Action::Flip) ==> self.turned(before, 2)
            &&& input == Input::Begin(Action::Rotate(Direction::Left)) ==> self.turned(before, 3)
            &&& input matches Input::Begin(Action::Move(d)) ==> {
                &&& self.shifted(before, direction_offset(d), 0)
                &&& self.moved_rest(before)
                &&& self.spec_timers().0 == before.spec_timers().0
                &&& self.spec_timers().1 == before.spec_timers().1
                &&& self.spec_timers().2 == before.spec_timers().2
                &&& self.spec_timers().3 == before.spec_config().das
                &&& 0 <= self.spec_resets() <= before.spec_resets() + 1
                &&& before.spec_active_piece() matches Some(a) ==> (fits_at(
                    before.spec_pile(),
                    a.kind,
                    a.orientation,
                    a.x + direction_offset(d),
                    a.y as int,
                ) ==> self.spec_timers().4 == (if fits_at(
                    before.spec_pile(),
                    a.kind,
                    a.orientation,
                    a.x + direction_offset(d),
                    a.y - 1,
                ) {
                    0
                } else {
                    LOCK_DELAY
                })) && (!fits_at(
                    before.spec_pile(),
                    a.kind,
                    a.orientation,
                    a.x + direction_offset(d),
                    a.y as int,
                ) ==> self.spec_timers().4 == before.spec_timers().4)
            }
        }
        &&& input matches Input::End(Action::Move(d)) ==> {
            let other_held = match d {
                Direction::Left => before.spec_movement().move_right,
                Direction::Right => before.spec_movement().move_left,
            };
            &&& self.spec_timers().3 == (if other_held {
                before.spec_config().das
            } else {
                0u32
            })
            &&& self.spec_timers().0 == before.spec_timers().0
            &&& self.spec_timers().1 == before.spec_timers().1
            &&& self.spec_timers().2 == before.spec_timers().2
            &&& self.spec_timers().4 == before.spec_timers().4
            &&& self.spec_pile() == before.spec_pile()
            &&& self.spec_active_piece() == before.spec_active_piece()
            &&& self.spec_ghost_piece() == before.spec_ghost_piece()
            &&& self.spec_resets() == before.spec_resets()
            &&& self.moved_rest(before)
        }
        &&& input == Input::Begin(Action::Harddrop) ==> (before.spec_ghost_piece() matches Some(g)
            ==> self.lock_result(before, g) && self.spawn_after_lock(before, g))
        &&& input == Input::Begin(Action::Hold) ==> (before.spec_active_piece() matches Some(a)
            ==> !before.spec_buffered().hold ==> !self.spec_game_over() ==> (before.spec_hold() is None
            || !before.spec_hold().unwrap().is_locked) ==> {
            &&& self.spec_hold() == Some(HoldPiece { kind: a.kind, is_locked: true })
            &&& self.spec_active_piece() matches Some(q) && q.kind == match before.spec_hold() {
                Some(h) => h.kind,
                None => before.spec_next_pieces()[0],
            }
        })
    }

    /// Hold, queue, counters, outcome, garbage, buffered requests and the end of the game
    /// are as in `before`.
    pub open spec fn moved_rest(&self, before: Engine) -> bool {
        &&& self.spec_hold() == before.spec_hold()
        &&& self.spec_next_pieces() == before.spec_next_pieces()
        &&& self.spec_combo() == before.spec_combo()
        &&& self.spec_back_to_back() == before.spec_back_to_back()
        &&& self.spec_frame_outcome() == before.spec_frame_outcome()
        &&& self.spec_garbage() == before.spec_garbage()
        &&& self.spec_buffered() == before.spec_buffered()
        &&& self.spec_game_over() == before.spec_game_over()
    }

    /// What follows a lock of `g` into the pile of `before` (when `g` is not above the
    /// visible grid, no hold is buffered and the game ran): with a spawn delay (the longer
    /// of the line-clear and spawn delays after a line clear, the spawn delay otherwise)
    /// no piece is in play and the spawn timer holds the delay; without one, the front of
    /// the queue spawns at once when it fits at the spawn point of the new pile.
    pub open spec fn spawn_after_lock(&self, before: Engine, g: Piece) -> bool {
        g.low() < GRID_HEIGHT && !before.spec_buffered().hold && !before.spec_game_over() ==> forall|p1: Pile|
            #[trigger] written(p1, before.spec_pile(), g) ==> {
                let lines = count_full(p1.0@) as int;
                let c = before.spec_config();
                let d = spawn_delay_after(c, lines);
                let k = before.spec_next_pieces()[0];
                &&& d > 0 ==> self.spec_active_piece() is None && self.spec_ghost_piece() is None
                    && self.spec_spawn_timer() == d
                &&& d == 0 && before.spec_buffered().rotation == 0 && before.spec_fall_delay() > 0 && fits_at(
                    self.spec_pile(),
                    k,
                    Orientation::N,
                    4,
                    22,
                ) ==> !self.spec_game_over() && (self.spec_active_piece() matches Some(a) && a.kind == k
                    && a.orientation == Orientation::N && a.x == 4 && a.y == spawn_row(self.spec_pile(), k))
            }
    }

    /// The lock outcome of the engine's own state, read through its getters.
    proof fn lemma_lock_result(&self, before: Engine, g: Piece)
        requires
            self.locked_at(before, g),
        ensures
            self.lock_result(before, g),
    {
        if g.low() < GRID_HEIGHT && (!before.buffered_inputs.hold || !self.game_over) {
            assert forall|p1: Pile| #[trigger] written(p1, before.spec_pile(), g) implies {
                let lines = count_full(p1.0@) as int;
                exists|pm: Pile|
                    (if lines > 0 && before.spec_config().line_clear == 0 {
                        cleared(p1, pm)
                    } else {
                        pm == p1
                    }) && #[trigger] garbage_pushed(pm, self.spec_pile(), garbage_total(before.spec_garbage()))
            } by {
                assert(written(p1, before.pile, g));
                let lines = count_full(p1.0@) as int;
                let total = garbage_total(garbage_deque_items(before.garbage_queue));
                let pm = choose|pm: Pile|
                    (if lines > 0 && before.config.line_clear == 0 {
                        cleared(p1, pm)
                    } else {
                        pm == p1
                    }) && #[trigger] garbage_pushed(pm, self.pile, total);
                assert(garbage_pushed(pm, self.spec_pile(), garbage_total(before.spec_garbage())));
            }
        }
    }

    /// The seed and earlier uses of the generator that picks the garbage hole columns.
    pub closed spec fn spec_garbage_rng(&self) -> (u64, Seq<Draw>) {
        self.garbage_rng@
    }

    /// Whether completed rows are waiting for the line-clear delay to end.
    pub closed spec fn spec_clearing(&self) -> bool {
        self.line_clear_timer.0 > 0
    }

    /// Every observable part of the two games but the garbage queue and the frame
    /// outcome is the same.
    pub open spec fn observed_same(&self, other: Engine) -> bool {
        &&& self.spec_config() == other.spec_config()
        &&& self.spec_frame() == other.spec_frame()
        &&& self.spec_pile() == other.spec_pile()
        &&& self.spec_active_piece() == other.spec_active_piece()
        &&& self.spec_ghost_piece() == other.spec_ghost_piece()
        &&& self.spec_hold() == other.spec_hold()
        &&& self.spec_next_pieces() == other.spec_next_pieces()
        &&& self.spec_combo() == other.spec_combo()
        &&& self.spec_back_to_back() == other.spec_back_to_back()
        &&& self.spec_game_over() == other.spec_game_over()
    }

    /// The whole state, hidden parts included, equals `other` but for the garbage queue.
    pub closed spec fn same_but_garbage(&self, other: Engine) -> bool {
        *self == (Engine { garbage_queue: self.garbage_queue, ..other })
    }

    /// The whole state, hidden parts included, equals `other` but for the frame outcome.
    pub closed spec fn same_but_outcome(&self, other: Engine) -> bool {
        *self == (Engine { frame_outcome: self.frame_outcome, ..other })
    }

    /// The engine's invariant, but for the ghost piece: the piece in play agrees with its
    /// shape and its pivot lies in the pile, the upcoming queue holds 5 to 11 pieces,
    /// queued garbage batches are 0 to 40 rows, a running auto-repeat timer has a
    /// direction, and while a line clear is pending no piece is in play and the spawn
    /// comes no earlier than the clear, and otherwise no row of the pile is full.
    pub closed spec fn wf_core(&self) -> bool {
        &&& self.wf_core_but_clear()
        &&& (self.line_clear_timer.0 > 0 ==> self.active_piece is None && self.spawn_timer.0
            >= self.line_clear_timer.0)
        &&& (self.line_clear_timer.0 == 0 ==> self.pile.clean())
        &&& self.line_clear_timer.0 <= self.config.line_clear
    }

    /// `wf_core` without its line-clear timing part.
    pub closed spec fn wf_core_but_clear(&self) -> bool {
        &&& (self.active_piece matches Some(a) ==> a.wf() && in_bounds(a.x as int, a.y as int))
        &&& self.next_queue.wf()
        &&& garbage_deque_items(self.garbage_queue).len() <= GARBAGE_CAPACITY
        &&& forall|i: int|
            0 <= i < garbage_deque_items(self.garbage_queue).len() ==> 0 <= #[trigger] garbage_deque_items(
                self.garbage_queue,
            )[i] <= PILE_HEIGHT
        &&& (self.das_timer.0 > 0 ==> self.movement.das is Some)
        &&& 0 <= self.frame
        &&& 0 <= self.frame_outcome.lines_cleared <= 4
    }

    /// The ghost piece agrees with its shape and lies entirely in the pile.
    pub closed spec fn ghost_in_bounds(&self) -> bool {
        self.ghost_piece matches Some(g) ==> g.wf() && blocks_in_bounds(g)
    }

    /// There is no ghost without a piece in play, and whenever the piece in play fits
    /// the pile, the ghost is exactly where it lands when dropped straight down.
    pub closed spec fn ghost_tracks(&self) -> bool {
        &&& (self.active_piece is None ==> self.ghost_piece is None)
        &&& (self.active_piece matches Some(a) ==> fits(self.pile, a) ==> (self.ghost_piece matches Some(
            g,
        ) && is_hard_drop(self.pile, a, g)))
    }

    /// The engine's invariant.
    pub closed spec fn wf(&self) -> bool {
        &&& self.wf_loose()
        &&& self.fits_in_play()
    }

    /// The invariant but for `fits_in_play`.
    pub closed spec fn wf_loose(&self) -> bool {
        &&& self.wf_core()
        &&& self.ghost_in_bounds()
        &&& self.ghost_tracks()
    }

    /// While the game runs, the piece in play lies on free cells of the pile.
    pub closed spec fn fits_in_play(&self) -> bool {
        !self.game_over ==> (self.active_piece matches Some(a) ==> fits(self.pile, a))
    }

    /// What the invariant promises of every game: the piece in play agrees with its
    /// shape and its pivot lies in the pile; the ghost lies entirely in the pile and
    /// exists only alongside a piece in play; whenever the piece in play fits the pile,
    /// the ghost is where it lands when dropped straight down; 5 to 11 pieces are
    /// queued; at most 40 garbage batches of 0 to 40 rows wait; a frame clears at most 4
    /// rows; a full row stays in the pile only while the line-clear delay runs (never
    /// without a delay), and meanwhile no piece is in play; while the game runs the piece
    /// in play lies on free cells, and a ghost exists exactly when a piece is in play.
    pub proof fn lemma_invariant(&self)
        requires
            self.wf(),
        ensures
            self.spec_active_piece() matches Some(a) ==> a.wf() && in_bounds(a.x as int, a.y as int),
            self.spec_ghost_piece() matches Some(g) ==> g.wf() && blocks_in_bounds(g)
                && self.spec_active_piece() is Some,
            self.spec_active_piece() matches Some(a) ==> fits(self.spec_pile(), a) ==> (
            self.spec_ghost_piece() matches Some(g) && is_hard_drop(self.spec_pile(), a, g)),
            5 <= self.spec_next_pieces().len() <= 11,
            self.spec_garbage().len() <= GARBAGE_CAPACITY,
            0 <= self.spec_frame_outcome().lines_cleared <= 4,
            forall|i: int|
                0 <= i < self.spec_garbage().len() ==> 0 <= #[trigger] self.spec_garbage()[i]
                    <= PILE_HEIGHT,
            !self.spec_clearing() ==> self.spec_pile().clean(),
            self.spec_config().line_clear == 0 ==> self.spec_pile().clean(),
            !self.spec_game_over() ==> (self.spec_active_piece() matches Some(a) ==> fits(self.spec_pile(), a)),
            !self.spec_game_over() ==> (self.spec_active_piece() is Some <==> self.spec_ghost_piece() is Some),
            self.spec_clearing() ==> self.spec_active_piece() is None,
    {
    }

    /// The counters can take `f` more steps without leaving `i32`: every step adds at
    /// most one to the reset, combo and back-to-back counters and three to the buffered
    /// rotation.
    pub closed spec fn room(&self, f: int) -> bool {
        &&& self.room_but_rotation(f)
        &&& 2 * self.buffered_inputs.rotation + 6 * (f + 1) <= self.rotation_ceiling@
    }

    /// `room` for every counter but the buffered rotation.
    pub closed spec fn room_but_rotation(&self, f: int) -> bool {
        &&& 0 <= f
        &&& self.ceiling@ <= i32::MAX
        &&& self.rotation_ceiling@ <= i32::MAX
        &&& 0 <= self.resets
        &&& self.resets + f + 1 <= self.ceiling@
        &&& (self.combo matches Some(v) ==> 0 <= v && v + f + 1 <= self.ceiling@)
        &&& (self.back_to_back matches Some(v) ==> 0 <= v && v + f + 1 <= self.ceiling@)
        &&& 0 <= self.buffered_inputs.rotation
    }

    /// Resets used plus the rows the piece in play stands above the lowest row it
    /// reached: the number of further resets a piece can spend before it must reach a
    /// new lowest row.
    pub closed spec fn strain(&self) -> int {
        match self.active_piece {
            Some(a) => self.resets + (a.low() - self.lowest_y),
            None => 0,
        }
    }

    /// A piece is in play and at most `k` resets are used, counting the rows it stands
    /// above its lowest row; below 15 no move can force a lock.
    pub closed spec fn calm(&self, k: int) -> bool {
        &&& self.active_piece is Some
        &&& self.lowest_y <= self.active_piece.unwrap().low()
        &&& 0 <= self.resets
        &&& self.strain() <= k
    }

    /// Nothing was locked or scored: pile, counters, outcome, garbage, pending timers and
    /// the end of the game are as in `old`.
    pub closed spec fn same_score(&self, old: Engine) -> bool {
        &&& self.same_tally(old)
        &&& self.game_over == old.game_over
    }

    /// `same_score` but for the end of the game.
    pub closed spec fn same_tally(&self, old: Engine) -> bool {
        &&& self.pile == old.pile
        &&& self.combo == old.combo
        &&& self.back_to_back == old.back_to_back
        &&& self.frame_outcome == old.frame_outcome
        &&& self.garbage_queue == old.garbage_queue
        &&& self.garbage_rng == old.garbage_rng
        &&& self.spawn_timer == old.spawn_timer
        &&& self.line_clear_timer == old.line_clear_timer
    }

    /// `same_score`, and the hold is unchanged too.
    pub closed spec fn same_board(&self, old: Engine) -> bool {
        &&& self.same_score(old)
        &&& self.hold == old.hold
        &&& self.next_queue == old.next_queue
        &&& self.buffered_inputs == old.buffered_inputs
    }

    /// The gravity delay, or the soft-drop delay while soft dropping.
    pub closed spec fn fall_delay(&self) -> u32 {
        if self.movement.soft_dropping {
            self.config.softdrop
        } else {
            self.config.gravity
        }
    }

    /// Dropping the piece in play one row lowers its lowest row by one.
    proof fn lemma_drop_strain(&self, q: Piece)
        requires
            self.wf_core(),
            self.active_piece matches Some(a) && a.moved(q, 0, -1, 0),
        ensures
            q.low() == self.active_piece.unwrap().low() - 1,
    {
        let a = self.active_piece.unwrap();
        crate::piece::lemma_low(a);
        crate::piece::lemma_low(q);
    }

    /// A move by at most four cells, with any turn, raises the lowest row of the piece in
    /// play by at most six.
    proof fn lemma_kick_strain(&self, q: Piece, dx: int, dy: int, rot: int)
        requires
            self.wf_core(),
            self.active_piece matches Some(a) && a.moved(q, dx, dy, rot),
            dy <= 4,
        ensures
            q.low() <= self.active_piece.unwrap().low() + 6,
    {
        let a = self.active_piece.unwrap();
        crate::piece::lemma_low(a);
        crate::piece::lemma_low(q);
    }

    /// `self` is `old` after locking piece `g` into the pile: a piece entirely above the
    /// visible grid ends the game and changes nothing else; otherwise (unless a buffered
    /// hold ended the game) the queued garbage is spent, the hold is unlocked, and the
    /// frame outcome, combo and back-to-back counters follow from the rows that `g`
    /// completes and from whether it was a T-spin; with no garbage queued, the pile is
    /// the pile with `g` written in, its full rows cleared at once when there is no
    /// line-clear delay.
    pub closed spec fn locked_at(&self, old: Engine, g: Piece) -> bool {
        &&& g.low() >= GRID_HEIGHT ==> *self == (Engine { game_over: true, ..old })
        &&& g.low() < GRID_HEIGHT ==> (!old.buffered_inputs.hold || !self.game_over) ==> {
            &&& garbage_deque_items(self.garbage_queue) == Seq::<i32>::empty()
            &&& batches_alike(self.pile, garbage_deque_items(old.garbage_queue))
            &&& batches_holed(self.pile, garbage_deque_items(old.garbage_queue), old.garbage_rng@.0, old.garbage_rng@.1)
            &&& !old.buffered_inputs.hold ==> self.hold == unlocked(old.hold)
            &&& forall|p1: Pile|
                #[trigger] written(p1, old.pile, g) ==> {
                    let lines = count_full(p1.0@) as int;
                    let tspin = old.last_input_was_rotate && g.kind == PieceKind::T && p1.corner_count(
                        g.x as int,
                        g.y as int,
                    ) >= 3;
                    &&& self.frame_outcome == (FrameOutcome { tspin, lines_cleared: lines as i32 })
                    &&& self.combo == next_combo(old.combo, lines)
                    &&& self.back_to_back == next_back_to_back(old.back_to_back, lines, tspin)
                    &&& garbage_deque_items(old.garbage_queue).len() == 0 ==> if lines > 0
                        && old.config.line_clear == 0 {
                        cleared(p1, self.pile)
                    } else {
                        self.pile == p1
                    }
                    &&& exists|pm: Pile|
                        (if lines > 0 && old.config.line_clear == 0 {
                            cleared(p1, pm)
                        } else {
                            pm == p1
                        }) && #[trigger] garbage_pushed(
                            pm,
                            self.pile,
                            garbage_total(garbage_deque_items(old.garbage_queue)),
                        )
                }
        }
    }

    /// The counter bounds are as in `old`.
    pub closed spec fn ceilings_kept(&self, old: Engine) -> bool {
        &&& self.ceiling == old.ceiling
        &&& self.rotation_ceiling == old.rotation_ceiling
    }

    /// The garbage queue is as in `old`, or it was pushed in and is empty.
    pub closed spec fn garbage_kept_or_spent(&self, old: Engine) -> bool {
        self.garbage_queue == old.garbage_queue || garbage_deque_items(self.garbage_queue).len() == 0
    }

    /// The common promises of a step: the invariant and the room for the steps left
    /// hold, no budget was created, a finished game stays finished, buffered rotation
    /// did not grow, and no garbage was queued.
    pub closed spec fn stepped(&self, old: Engine, fuel: int, rest: int) -> bool {
        &&& self.stepped_loose(old, fuel, rest)
        &&& self.fits_in_play()
    }

    /// `stepped` but for `fits_in_play`.
    pub closed spec fn stepped_loose(&self, old: Engine, fuel: int, rest: int) -> bool {
        &&& self.wf_loose()
        &&& self.ceilings_kept(old)
        &&& self.garbage_kept_or_spent(old)
        &&& self.room(rest)
        &&& 0 <= rest <= fuel
        &&& self.config == old.config
        &&& self.frame == old.frame
        &&& self.movement == old.movement
        &&& self.das_timer == old.das_timer
        &&& (old.game_over ==> self.game_over)
        &&& self.buffered_inputs.rotation <= old.buffered_inputs.rotation
    }

    /// A new game seeded with `seed`: the first piece spawns now, or after
    /// `config.spawn` frames when that is positive.
    pub fn new(seed: u64, config: Config) -> (r: Engine)
        ensures
            r.wf(),
            r.spec_config() == config,
            r.spec_frame() == 0,
            forall|n: int| 0 <= n <= 0x1000 ==> #[trigger] r.has_room_for_frame(n),
            r.spec_frame_outcome() == (FrameOutcome { tspin: false, lines_cleared: 0 }),
            config.spawn > 0 ==> {
                &&& r.spec_spawn_timer() == config.spawn
                &&& r.spec_active_piece() is None
                &&& !r.spec_game_over()
                &&& r.spec_next_pieces().len() == 7
                &&& is_bag(r.spec_next_pieces())
                &&& r.spec_next_pieces() == bag_order(seed, Seq::empty())
                &&& r.spec_hold() is None
                &&& r.spec_combo() is None
                &&& r.spec_back_to_back() is None
                &&& r.spec_garbage() == Seq::<i32>::empty()
                &&& forall|x: int, y: int| in_bounds(x, y) ==> #[trigger] r.spec_pile().cell(x, y).is_none()
            },
            r.spec_movement() == (MovementState { das: None, move_left: false, move_right: false, soft_dropping: false }),
            r.spec_buffered() == (BufferedInputs { hold: false, rotation: 0 }),
            r.spec_hold() is None,
            r.spec_combo() is None,
            r.spec_back_to_back() is None,
            r.spec_garbage() == Seq::<i32>::empty(),
            r.spec_garbage_rng() == (seed, Seq::<Draw>::empty()),
            forall|x: int, y: int| in_bounds(x, y) ==> #[trigger] r.spec_pile().cell(x, y).is_none(),
            config.spawn > 0 ==> r.spec_timers() == (0u32, config.spawn, 0u32, 0u32, 0u32),
            config.spawn == 0 && config.gravity > 0 ==> {
                &&& r.spec_timers() == (0u32, 0u32, config.gravity, 0u32, 0u32)
                &&& r.spec_resets() == 1
                &&& r.spec_active_piece() matches Some(a) && r.spec_ghost_piece() matches Some(g) && is_hard_drop(
                    r.spec_pile(),
                    a,
                    g,
                )
            },
            config.spawn == 0 ==> {
                &&& !r.spec_game_over()
                &&& r.spec_active_piece() matches Some(a) && is_bag(seq![a.kind] + r.spec_next_pieces().take(6))
                    && seq![a.kind] + r.spec_next_pieces().take(6) == bag_order(seed, Seq::empty())
                    && (config.gravity > 0 ==> a.orientation == Orientation::N && a.x == 4 && a.y == 21)
            },
    {
        let mut result = Engine {
            config,
            frame: 0,
            pile: Pile::new(),
            active_piece: None,
            ghost_piece: None,
            hold: None,
            next_queue: NextQueue::new(seed),
            movement: MovementState { das: None, move_left: false, move_right: false, soft_dropping: false },
            spawn_timer: Timer(0),
            fall_timer: Timer(0),
            das_timer: Timer(0),
            line_clear_timer: Timer(0),
            lock_timer: Timer(0),
            lowest_y: 0,
            resets: 0,
            game_over: false,
            combo: None,
            back_to_back: None,
            frame_outcome: FrameOutcome { tspin: false, lines_cleared: 0 },
            last_input_was_rotate: false,
            buffered_inputs: BufferedInputs { hold: false, rotation: 0 },
            garbage_rng: PRNG::new(seed),
            garbage_queue: GarbageDeque::new(),
            ceiling: Ghost(i32::MAX as int),
            rotation_ceiling: Ghost(i32::MAX as int),
        };
        proof {
            crate::queue::lemma_bag_len(result.next_queue.items());
            assert forall|y: int| 0 <= y < PILE_HEIGHT implies !crate::pile::row_full(
                #[trigger] result.pile.0[y],
            ) by {
                assert(result.pile.cell(0, y).is_none());
            }
        }

        if result.config.spawn > 0 {
            result.spawn_timer.set(result.config.spawn);
        } else {
            let ghost before = result;
            proof {
                let k = result.next_queue.items()[0];
                lemma_block_offsets_shape(k, Orientation::N);
                assert forall|y0: int, i: int| 20 <= y0 <= 22 && 0 <= i < 4 implies !result.pile.blocked(
                    #[trigger] placed_block(k, Orientation::N, 4, y0, i).0,
                    placed_block(k, Orientation::N, 4, y0, i).1,
                ) by {
                    let (x, y) = placed_block(k, Orientation::N, 4, y0, i);
                    assert(in_bounds(x, y));
                    assert(result.pile.cell(x, y).is_none());
                }
                assert(fits_at(result.pile, k, Orientation::N, 4, 22));
                assert(fits_at(result.pile, k, Orientation::N, 4, 21));
                assert(fits_at(result.pile, k, Orientation::N, 4, 20));
            }
            let _ = result.spawn_next(STEP_BUDGET);
            proof {
                let a = result.active_piece.unwrap();
                assert(result.next_queue.items() =~= before.next_queue.items().drop_first());
                assert(seq![a.kind] + result.next_queue.items().take(6) =~= before.next_queue.items());
            }
        }
        proof {
            assert(0 <= result.resets <= 8);
            assert forall|n: int| 0 <= n <= 0x1000 implies #[trigger] result.has_room_for_frame(n) by {
                assert(result.resets + 0x1_0000 * (n + 1) + 1 <= i32::MAX);
            }
        }
        result
    }

    /// The counters have room for one more frame of `inputs` inputs: the frame counter can
    /// advance and every other counter can take a full step budget for the timer part and
    /// for each input.
    pub open spec fn has_room_for_frame(&self, inputs: int) -> bool {
        &&& 0 <= inputs
        &&& self.spec_frame() < i32::MAX
        &&& 0 <= self.spec_resets()
        &&& self.spec_resets() + 0x1_0000 * (inputs + 1) + 1 <= i32::MAX
        &&& (self.spec_combo() matches Some(v) ==> 0 <= v && v + 0x1_0000 * (inputs + 1) + 1 <= i32::MAX)
        &&& (self.spec_back_to_back() matches Some(v) ==> 0 <= v && v + 0x1_0000 * (inputs + 1) + 1
            <= i32::MAX)
        &&& 0 <= self.spec_buffered().rotation
        &&& 2 * self.spec_buffered().rotation + 0x6_0000 * (inputs + 1) + 6 <= i32::MAX
    }

    /// Whether `update` may be called with `inputs` inputs: the frame counter and the
    /// step counters still have room within `i32` for the timer part and each input.
    pub fn has_headroom(&self, inputs: usize) -> (r: bool)
        ensures
            r == self.has_room_for_frame(inputs as int),
    {
        if inputs >= 0x8000 {
            return false;
        }
        let need: i64 = 0x1_0000i64 * (inputs as i64 + 1) + 1;
        let max: i64 = i32::MAX as i64;
        let combo_ok = match self.combo {
            Some(v) => 0 <= v && v as i64 + need <= max,
            None => true,
        };
        let back_to_back_ok = match self.back_to_back {
            Some(v) => 0 <= v && v as i64 + need <= max,
            None => true,
        };
        let rotation = self.buffered_inputs.rotation as i64;
        self.frame < i32::MAX && 0 <= self.resets && self.resets as i64 + need <= max && combo_ok && back_to_back_ok
            && 0 <= rotation && 2 * rotation + 6 * (need - 1) + 6 <= max
    }

    /// Queues `lines` rows of garbage, pushed in when the next piece locks; when 40
    /// batches are already waiting the request is dropped.
    pub fn queue_garbage(&mut self, lines: i32)
        requires
            old(self).wf(),
            0 <= lines <= PILE_HEIGHT,
        ensures
            final(self).wf(),
            final(self).spec_garbage() == if old(self).spec_garbage().len() < GARBAGE_CAPACITY {
                old(self).spec_garbage().push(lines)
            } else {
                old(self).spec_garbage()
            },
            final(self).same_but_garbage(*old(self)),
            final(self).observed_same(*old(self)),
            final(self).spec_frame_outcome() == old(self).spec_frame_outcome(),
    {
        // A full queue means the player has lost anyway, so the batch is dropped.
        let _ = self.garbage_queue.push_back(lines);
    }

    /// Advances the game by one frame: runs the line-clear, spawn, gravity, auto-repeat
    /// and lock timers, then applies the frame's inputs in order, each with a step budget
    /// of its own. A finished game only resets the frame outcome. Stated: the state after
    /// the timers is as `timers_ran` says (a frame where no timer fires only ticks them;
    /// each timer firing alone has its effect), and from there each input in turn has
    /// the effect `input_result` states, every intermediate state keeping the invariant.
    pub fn update(&mut self, frame_inputs: &[Input])
        requires
            old(self).wf(),
            !old(self).spec_game_over() ==> old(self).has_room_for_frame(frame_inputs@.len() as int),
        ensures
            final(self).wf(),
            final(self).spec_config() == old(self).spec_config(),
            old(self).spec_game_over() ==> {
                &&& final(self).same_but_outcome(*old(self))
                &&& final(self).observed_same(*old(self))
                &&& final(self).spec_garbage() == old(self).spec_garbage()
                &&& final(self).spec_frame_outcome() == (FrameOutcome { tspin: false, lines_cleared: 0 })
            },
            !old(self).spec_game_over() ==> final(self).spec_frame() == old(self).spec_frame() + 1,
            !old(self).spec_game_over() ==> final(self).spec_movement() == movement_after(
                old(self).spec_movement(),
                frame_inputs@,
            ),
            old(self).spec_game_over() ==> final(self).spec_game_over(),
            final(self).spec_garbage() == old(self).spec_garbage() || final(self).spec_garbage().len() == 0,
            !old(self).spec_game_over() && frame_inputs@.len() == 0 ==> final(self).timers_ran(*old(self)),
            !old(self).spec_game_over() ==> exists|states: Seq<Engine>|
                #[trigger] inputs_applied(states, frame_inputs@) && states[0].timers_ran(*old(self)) && states.last()
                    == *final(self),
            !old(self).spec_game_over() && fires(old(self).spec_timers().1) && !fires(old(self).spec_timers().0)
                && !fits_at(old(self).spec_pile(), old(self).spec_next_pieces()[0], Orientation::N, 4, 22)
                ==> final(self).spec_game_over(),
    {
        self.frame_outcome = FrameOutcome::default();

        if self.game_over {
            return;
        }

        self.frame = self.frame + 1;
        let ghost n = frame_inputs@.len() as int;
        self.ceiling = Ghost(i32::MAX - 0x1_0000 * n);
        self.rotation_ceiling = Ghost(i32::MAX - 0x6_0000 * n);
        let ghost entry = *self;
        assert(self.resets == old(self).spec_resets());
        assert(STEP_BUDGET as int == 0x1_0000);
        assert(self.buffered_inputs == old(self).spec_buffered());
        assert(self.combo == old(self).spec_combo());
        assert(self.back_to_back == old(self).spec_back_to_back());
        assert(self.resets + 0x1_0000 + 1 <= self.ceiling@);
        assert(2 * self.buffered_inputs.rotation + 6 * (0x1_0000 + 1) <= self.rotation_ceiling@);
        assert(self.room_but_rotation(STEP_BUDGET as int));
        assert(self.room(STEP_BUDGET as int));
        let _ = self.run_timers();
        let ghost mid = *self;
        proof {
            if let Some(a) = old(self).active_piece {
                if !fires(old(self).line_clear_timer.0) && !fires(old(self).spawn_timer.0) && !fires(
                    old(self).fall_timer.0,
                ) && !fires(old(self).das_timer.0) && fires(old(self).lock_timer.0) && !fits_at(
                    old(self).pile,
                    a.kind,
                    a.orientation,
                    a.x as int,
                    a.y - 1,
                ) {
                    lemma_lock_result_same_view(mid, entry, *old(self), a);
                }
            }
            assert(mid.timers_ran(*old(self)));
        }

        let ghost movement_before = old(self).movement;
        assert(self.movement == movement_before);
        let ghost mut states: Seq<Engine> = seq![mid];
        let mut i: usize = 0;
        while i < frame_inputs.len()
            invariant
                i <= frame_inputs@.len(),
                self.movement == movement_after(movement_before, frame_inputs@.take(i as int)),
                self.wf(),
                self.room(0),
                n == frame_inputs@.len(),
                self.ceiling@ == i32::MAX - 0x1_0000 * (n - i),
                self.rotation_ceiling@ == i32::MAX - 0x6_0000 * (n - i),
                self.config == old(self).config,
                self.frame == old(self).frame + 1,
                self.garbage_kept_or_spent(*old(self)),
                inputs_applied(states, frame_inputs@.take(i as int)),
                states[0] == mid,
                states.last() == *self,
                mid.game_over ==> self.game_over,
            decreases frame_inputs@.len() - i,
        {
            let input = frame_inputs[i];
            let ghost before_input = *self;
            self.ceiling = Ghost(self.ceiling@ + 0x1_0000);
            self.rotation_ceiling = Ghost(self.rotation_ceiling@ + 0x6_0000);
            let ghost head = *self;
            let _ = self.apply_input(input, STEP_BUDGET);
            proof {
                lemma_input_result_ceiling(*self, head, before_input, input);
                let old_states = states;
                states = states.push(*self);
                let taken = frame_inputs@.take(i + 1);
                assert(taken.drop_last() =~= frame_inputs@.take(i as int));
                assert forall|k: int| 0 <= k < taken.len() implies #[trigger] states[k + 1].input_result(states[k], taken[k]) by {
                    if k < i {
                        assert(taken[k] == frame_inputs@.take(i as int)[k]);
                        assert(states[k + 1] == old_states[k + 1]);
                        assert(states[k] == old_states[k]);
                    } else {
                        assert(taken[k] == input);
                    }
                }
                assert forall|k: int| 0 <= k < states.len() implies #[trigger] states[k].wf() by {
                    if k < old_states.len() {
                        assert(states[k] == old_states[k]);
                    }
                }
            }
            i = i + 1;
        }
        assert(frame_inputs@.take(frame_inputs@.len() as int) =~= frame_inputs@);
        proof {
            if frame_inputs@.len() == 0 {
                assert(*self == mid);
            }
            assert(inputs_applied(states, frame_inputs@));
        }
    }

    /// The timer part of a frame: line clear, spawn, gravity, auto-repeat and lock delay,
    /// in that order. Returns the step budget left.
    #[verifier::rlimit(100)]
    #[verifier::spinoff_prover]
    fn run_timers(&mut self) -> (rest: u32)
        requires
            old(self).wf(),
            old(self).room(STEP_BUDGET as int),
        ensures
            final(self).wf(),
            final(self).room(rest as int),
            final(self).config == old(self).config,
            final(self).frame == old(self).frame,
            final(self).movement == old(self).movement,
            final(self).garbage_kept_or_spent(*old(self)),
            final(self).ceilings_kept(*old(self)),
            rest <= STEP_BUDGET,
            !fires(old(self).line_clear_timer.0) && !fires(old(self).spawn_timer.0) && !fires(
                old(self).fall_timer.0,
            ) && !fires(old(self).das_timer.0) && !fires(old(self).lock_timer.0) ==> {
                &&& *final(self) == (Engine {
                    line_clear_timer: Timer(ticked(old(self).line_clear_timer.0)),
                    spawn_timer: Timer(ticked(old(self).spawn_timer.0)),
                    fall_timer: Timer(ticked(old(self).fall_timer.0)),
                    das_timer: Timer(ticked(old(self).das_timer.0)),
                    lock_timer: Timer(ticked(old(self).lock_timer.0)),
                    ..*old(self)
                })
                &&& rest == STEP_BUDGET
            },
            fires(old(self).line_clear_timer.0) && !fires(old(self).spawn_timer.0) ==> {
                &&& cleared(old(self).pile, final(self).pile)
                &&& final(self).active_piece is None
                &&& final(self).line_clear_timer.0 == 0
                &&& final(self).spawn_timer.0 == ticked(old(self).spawn_timer.0)
                &&& final(self).game_over == old(self).game_over
            },
            fires(old(self).spawn_timer.0) && !fires(old(self).line_clear_timer.0) && !fits_at(
                old(self).pile,
                old(self).next_queue.items()[0],
                Orientation::N,
                4,
                22,
            ) ==> final(self).game_over,
            !fires(old(self).line_clear_timer.0) && !fires(old(self).spawn_timer.0) && fires(old(self).fall_timer.0)
                && !fires(old(self).das_timer.0) && !fires(old(self).lock_timer.0) && 0 <= old(self).resets < MAX_RESETS
                && old(self).fall_delay() > 0 ==> final(self).shifted(*old(self), 0, -1) && (old(self).active_piece matches Some(
                a,
            ) ==> fits_at(old(self).pile, a.kind, a.orientation, a.x as int, a.y - 1) ==> final(self).lock_timer.0 == (
            if fits_at(old(self).pile, a.kind, a.orientation, a.x as int, a.y - 2) {
                0
            } else {
                (LOCK_DELAY - 1) as u32
            })),
            !fires(old(self).line_clear_timer.0) && !fires(old(self).spawn_timer.0) && !fires(old(self).fall_timer.0)
                && fires(old(self).das_timer.0) && !fires(old(self).lock_timer.0) && old(self).config.arr > 0
                && 0 <= old(self).resets < MAX_RESETS ==> final(self).shifted(
                *old(self),
                direction_offset(old(self).movement.das.unwrap()),
                0,
            ),
            !fires(old(self).line_clear_timer.0) && !fires(old(self).spawn_timer.0) && !fires(old(self).fall_timer.0)
                && fires(old(self).das_timer.0) && !fires(old(self).lock_timer.0) && old(self).config.arr == 0
                && 0 <= old(self).resets <= 4 ==> (old(self).active_piece matches Some(a) ==> final(self).slid(
                *old(self),
                a,
                direction_offset(old(self).movement.das.unwrap()),
            )),
            !fires(old(self).line_clear_timer.0) && !fires(old(self).spawn_timer.0) && !fires(old(self).fall_timer.0)
                && !fires(old(self).das_timer.0) && fires(old(self).lock_timer.0) ==> (old(self).active_piece matches Some(a)
                ==> fits(old(self).pile, a) ==> !fits_at(old(self).pile, a.kind, a.orientation, a.x as int, a.y - 1)
                ==> final(self).lock_result(*old(self), a) && final(self).spawn_after_lock(*old(self), a)),
            !fires(old(self).line_clear_timer.0) && fires(old(self).spawn_timer.0) && !fires(old(self).fall_timer.0)
                && !fires(old(self).das_timer.0) && !fires(old(self).lock_timer.0) && old(self).active_piece is None
                && fits_at(old(self).pile, old(self).next_queue.items()[0], Orientation::N, 4, 22)
                && old(self).buffered_inputs == (BufferedInputs { hold: false, rotation: 0 }) && !old(self).game_over
                && old(self).fall_delay() > 1 ==> {
                &&& !final(self).game_over
                &&& final(self).active_piece matches Some(a) && a.kind == old(self).next_queue.items()[0]
                    && a.orientation == Orientation::N && a.x == 4 && a.y == spawn_row(
                    old(self).pile,
                    old(self).next_queue.items()[0],
                )
            },
    {
        let mut fuel: u32 = STEP_BUDGET;

        let ghost line_clear_before = self.line_clear_timer.0;
        let ghost spawn_before = self.spawn_timer.0;
        // The line clear comes before the spawn so that the ghost piece is not left floating.
        if self.line_clear_timer.tick() {
            self.pile.line_clear();
        }
        if self.spawn_timer.tick() {
            assert(spawn_before == 1);
            assert(line_clear_before <= 1);
            fuel = self.spawn_next(fuel);
        }
        if self.fall_timer.tick() {
            fuel = self.fall(fuel);
            fuel = self.set_fall_timer(fuel);
        }
        if self.das_timer.tick() {
            fuel = self.auto_shift(fuel);
        }
        let ghost before_lock = *self;
        let ghost fuel_at_lock = fuel;
        fuel = self.lock_phase(fuel);
        proof {
            if let Some(a) = before_lock.active_piece {
                if fires(before_lock.lock_timer.0) && fuel_at_lock > 6 && fits(before_lock.pile, a) && !fits_at(
                    before_lock.pile,
                    a.kind,
                    a.orientation,
                    a.x as int,
                    a.y - 1,
                ) && before_lock.pile == old(self).pile && before_lock.buffered_inputs == old(self).buffered_inputs
                    && before_lock.hold == old(self).hold && before_lock.combo == old(self).combo
                    && before_lock.back_to_back == old(self).back_to_back
                    && before_lock.last_input_was_rotate == old(self).last_input_was_rotate
                    && before_lock.garbage_queue == old(self).garbage_queue && before_lock.next_queue
                    == old(self).next_queue && before_lock.movement == old(self).movement && before_lock.game_over
                    == old(self).game_over && before_lock.config == old(self).config && before_lock.garbage_rng
                    == old(self).garbage_rng {
                    lemma_lock_result_same_view(*self, before_lock, *old(self), a);
                }
            }
        }
        fuel
    }

    /// The lock-delay part of a frame: ticks the lock timer and, when it fires, moves the
    /// piece in play down a row or locks it. Returns the step budget left.
    fn lock_phase(&mut self, fuel: u32) -> (rest: u32)
        requires
            old(self).wf(),
            old(self).room(fuel as int),
        ensures
            final(self).wf(),
            final(self).room(rest as int),
            rest <= fuel,
            final(self).config == old(self).config,
            final(self).frame == old(self).frame,
            final(self).movement == old(self).movement,
            final(self).garbage_kept_or_spent(*old(self)),
            final(self).ceilings_kept(*old(self)),
            old(self).game_over ==> final(self).game_over,
            !fires(old(self).lock_timer.0) ==> *final(self) == (Engine {
                lock_timer: Timer(ticked(old(self).lock_timer.0)),
                ..*old(self)
            }) && rest == fuel,
            old(self).active_piece is None ==> *final(self) == (Engine {
                lock_timer: Timer(ticked(old(self).lock_timer.0)),
                ..*old(self)
            }),
            fires(old(self).lock_timer.0) && fuel > 6 ==> (old(self).active_piece matches Some(a) ==> fits(
                old(self).pile,
                a,
            ) ==> !fits_at(old(self).pile, a.kind, a.orientation, a.x as int, a.y - 1) ==> final(self).lock_result(
                *old(self),
                a,
            ) && final(self).spawn_after_lock(*old(self), a)),
    {
        let ghost fuel_in = fuel;
        let mut fuel = fuel;
        let lock_fires = self.lock_timer.tick();
        let ghost ticked_state = *self;
        if lock_fires {
            fuel = self.try_lock(fuel);
            proof {
                if let Some(a) = ticked_state.active_piece {
                    if fits(ticked_state.pile, a) && !fits_at(ticked_state.pile, a.kind, a.orientation, a.x as int, a.y - 1)
                        && fuel_in > 6 {
                        self.lemma_lock_result(ticked_state, a);
                        lemma_lock_result_same_view(*self, ticked_state, *old(self), a);
                    }
                }
            }
        }
        fuel
    }

    /// The auto-repeat timer fired: moves the piece one column in the auto-repeat
    /// direction and restarts the timer at the repeat rate; a repeat rate of zero slides the
    /// piece as far as it goes at once.
    fn auto_shift(&mut self, fuel: u32) -> (rest: u32)
        requires
            old(self).wf(),
            old(self).room(fuel as int),
            old(self).movement.das is Some,
        ensures
            final(self).wf(),
            final(self).room(rest as int),
            final(self).config == old(self).config,
            final(self).frame == old(self).frame,
            final(self).movement == old(self).movement,
            final(self).garbage_kept_or_spent(*old(self)),
            final(self).ceilings_kept(*old(self)),
            old(self).game_over ==> final(self).game_over,
            rest <= fuel,
            old(self).config.arr > 0 && 0 <= old(self).resets < MAX_RESETS && fuel > 0 ==> final(self).shifted(
                *old(self),
                direction_offset(old(self).movement.das.unwrap()),
                0,
            ) && (final(self).lock_timer == old(self).lock_timer || final(self).lock_timer.0 == 0
                || final(self).lock_timer.0 == LOCK_DELAY),
            old(self).active_piece is None ==> *final(self) == (Engine { das_timer: final(self).das_timer, ..*old(self) }),
            old(self).config.arr == 0 && 0 <= old(self).resets <= 4 && fuel > 12 ==> (old(self).active_piece matches Some(a)
                ==> final(self).slid(*old(self), a, direction_offset(old(self).movement.das.unwrap())) && (
                final(self).lock_timer == old(self).lock_timer || final(self).lock_timer.0 == 0
                || final(self).lock_timer.0 == LOCK_DELAY)),
            final(self).das_timer.0 == (if old(self).config.arr > 0 {
                old(self).config.arr
            } else {
                1
            }),
    {
        let ghost fuel_at_entry = fuel;
        let mut fuel = fuel;
        let direction = match self.movement.das {
            Some(d) => d,
            None => {
                assert(false);
                Direction::Left
            },
        };
        fuel = self.do_move(direction, fuel);
        let ghost off = direction_offset(direction);
        let ghost slide = old(self).config.arr == 0 && 0 <= old(self).resets <= 4 && fuel_at_entry > 12
            && old(self).active_piece is Some;
        let ghost a = old(self).active_piece.unwrap();
        let ghost x1 = self.active_piece.unwrap().x as int;
        let ghost fuel1 = fuel as int;
        let ghost mut k: int = 0;
        if self.config.arr > 0 {
            self.das_timer.set(self.config.arr);
        } else {
            self.das_timer.set(1);
            loop
                invariant_except_break
                    slide ==> fuel == fuel1 - k,
                invariant
                    slide ==> {
                        &&& self.active_piece matches Some(q) && q.kind == a.kind && q.orientation == a.orientation
                            && q.y == a.y && q.x == (if off > 0 { x1 + k } else { x1 - k }) && (if off > 0 {
                            q.x >= a.x
                        } else {
                            q.x <= a.x
                        })
                        &&& 0 <= k
                        &&& 0 <= x1 < 10
                        &&& if off > 0 { x1 >= a.x } else { x1 <= a.x }
                        &&& 0 <= self.resets <= old(self).resets + 1 + k
                        &&& fuel1 >= fuel_at_entry - 1
                        &&& self.pile == old(self).pile
                        &&& (self.lock_timer == old(self).lock_timer || self.lock_timer.0 == 0
                            || self.lock_timer.0 == LOCK_DELAY)
                    },
                    off == direction_offset(direction),
                    off == 1 || off == -1,
                    slide ==> 0 <= old(self).resets <= 4 && fuel_at_entry > 12 && old(self).active_piece is Some,
                    a == old(self).active_piece.unwrap(),
                    self.wf(),
                    self.room(fuel as int),
                    self.movement == old(self).movement,
                    self.movement.das == Some(direction),
                    self.das_timer.0 == 1,
                    self.config == old(self).config,
                    self.frame == old(self).frame,
                    self.garbage_kept_or_spent(*old(self)),
                    self.ceilings_kept(*old(self)),
                self.ceilings_kept(*old(self)),
                    old(self).game_over ==> self.game_over,
                    fuel <= fuel_at_entry,
                    old(self).active_piece is None ==> *self == (Engine { das_timer: self.das_timer, ..*old(self) }),
                ensures
                    slide ==> (self.active_piece matches Some(q) && !fits_at(
                        self.pile,
                        q.kind,
                        q.orientation,
                        q.x + off,
                        q.y as int,
                    )),
                decreases fuel,
            {
                proof {
                    if slide {
                        let q = self.active_piece.unwrap();
                        assert(in_bounds(q.x as int, q.y as int));
                        assert(k <= 9);
                        assert(fuel > 0);
                    }
                }
                if fuel == 0 {
                    break;
                }
                fuel = fuel - 1;
                match self.can_move(direction.offset(), 0, 0) {
                    Some(piece) => {
                        proof {
                            if slide {
                                assert(self.resets < MAX_RESETS);
                            }
                        }
                        fuel = self.set_active(Some(piece), fuel);
                        proof {
                            k = k + 1;
                        }
                    },
                    None => {
                        break;
                    },
                }
            }
        }
        fuel
    }

    /// Applies one input of a frame. Returns the step budget left.
    #[verifier::rlimit(80)]
    fn apply_input(&mut self, input: Input, fuel: u32) -> (rest: u32)
        requires
            old(self).wf(),
            old(self).room(fuel as int),
        ensures
            final(self).wf(),
            final(self).room(rest as int),
            final(self).config == old(self).config,
            final(self).frame == old(self).frame,
            final(self).movement == movement_step(old(self).movement, input),
            final(self).garbage_kept_or_spent(*old(self)),
            final(self).ceilings_kept(*old(self)),
            fuel > 0 && 0 <= old(self).resets < MAX_RESETS && input == Input::Begin(Action::Rotate(Direction::Right))
                ==> final(self).turned(*old(self), 1),
            fuel > 0 && 0 <= old(self).resets < MAX_RESETS && input == Input::Begin(Action::Flip)
                ==> final(self).turned(*old(self), 2),
            fuel > 0 && 0 <= old(self).resets < MAX_RESETS && input == Input::Begin(Action::Rotate(Direction::Left))
                ==> final(self).turned(*old(self), 3),
            fuel > 0 && 0 <= old(self).resets < MAX_RESETS ==> (input matches Input::Begin(Action::Move(d))
                ==> final(self).shifted(*old(self), direction_offset(d), 0)),
            fuel > 0 && input == Input::Begin(Action::Harddrop) ==> (old(self).ghost_piece matches Some(g)
                ==> final(self).lock_result(*old(self), g)),
            fuel > 5 ==> final(self).input_result(*old(self), input),
            old(self).game_over ==> final(self).game_over,
    {
        let ghost old_fuel = fuel;
        let mut fuel = fuel;
        self.last_input_was_rotate = match input {
            Input::Begin(Action::Harddrop) | Input::End(_) => self.last_input_was_rotate,
            _ => false,
        };
        match input {
            Input::Begin(Action::Rotate(Direction::Right)) => {
                let ghost before = *self;
                fuel = self.rotate(1, fuel);
                proof {
                    if old_fuel > 0 && 0 <= before.resets < MAX_RESETS {
                        assert(self.turned(before, 1));
                        assert(before.spec_pile() == old(self).spec_pile());
                        assert(before.spec_active_piece() == old(self).spec_active_piece());
                    }
                }
            },
            Input::Begin(Action::Flip) => {
                let ghost before = *self;
                fuel = self.rotate(2, fuel);
                proof {
                    if old_fuel > 0 && 0 <= before.resets < MAX_RESETS {
                        assert(self.turned(before, 2));
                        assert(before.spec_pile() == old(self).spec_pile());
                        assert(before.spec_active_piece() == old(self).spec_active_piece());
                    }
                }
            },
            Input::Begin(Action::Rotate(Direction::Left)) => {
                let ghost before = *self;
                fuel = self.rotate(3, fuel);
                proof {
                    if old_fuel > 0 && 0 <= before.resets < MAX_RESETS {
                        assert(self.turned(before, 3));
                        assert(before.spec_pile() == old(self).spec_pile());
                        assert(before.spec_active_piece() == old(self).spec_active_piece());
                    }
                }
            },
            Input::Begin(Action::Hold) => {
                fuel = self.do_hold(fuel);
            },
            Input::Begin(Action::Harddrop) => {
                let ghost before = *self;
                fuel = self.lock_ghost(fuel);
                proof {
                    if let Some(g) = before.ghost_piece {
                        if old_fuel > 0 {
                            self.lemma_lock_result(before, g);
                        }
                    }
                }
            },
            Input::Begin(Action::Move(Direction::Left)) => {
                self.movement.move_left = true;
                self.movement.das = Some(Direction::Left);
                fuel = self.do_move(Direction::Left, fuel);
                self.das_timer.set(self.config.das);
            },
            Input::Begin(Action::Move(Direction::Right)) => {
                self.movement.move_right = true;
                self.movement.das = Some(Direction::Right);
                fuel = self.do_move(Direction::Right, fuel);
                self.das_timer.set(self.config.das);
            },
            Input::End(Action::Move(Direction::Left)) => {
                self.movement.move_left = false;
                self.das_timer.stop();
                if self.movement.move_right {
                    self.movement.das = Some(Direction::Right);
                    self.das_timer.set(self.config.das);
                } else {
                    self.movement.das = None;
                }
            },
            Input::End(Action::Move(Direction::Right)) => {
                self.movement.move_right = false;
                self.das_timer.stop();
                if self.movement.move_left {
                    self.movement.das = Some(Direction::Left);
                    self.das_timer.set(self.config.das);
                } else {
                    self.movement.das = None;
                }
            },
            Input::Begin(Action::Softdrop) => {
                fuel = self.fall(fuel);
                self.movement.soft_dropping = true;
                fuel = self.set_fall_timer(fuel);
            },
            Input::End(Action::Softdrop) => {
                self.movement.soft_dropping = false;
                fuel = self.set_fall_timer(fuel);
            },
            _ => {},
        }
        fuel
    }

    /// The piece in play.
    pub fn active_piece(&self) -> (r: &Option<Piece>)
        ensures
            *r == self.spec_active_piece(),
    {
        &self.active_piece
    }

    /// Where the piece in play would land if dropped.
    pub fn ghost_piece(&self) -> (r: &Option<Piece>)
        ensures
            *r == self.spec_ghost_piece(),
    {
        &self.ghost_piece
    }

    /// The held piece.
    pub fn hold(&self) -> (r: &Option<HoldPiece>)
        ensures
            *r == self.spec_hold(),
    {
        &self.hold
    }

    /// The next five pieces, front first.
    pub fn next_queue(&self) -> (r: Vec<PieceKind>)
        requires
            self.wf(),
        ensures
            r@ == self.spec_next_pieces().take(5),
            r@.len() == 5,
    {
        self.next_queue.front(5)
    }

    /// The locked cells, bottom row first.
    pub fn pile(&self) -> (r: &[Row; PILE_HEIGHT])
        ensures
            *r == self.spec_pile().0,
    {
        &self.pile.0
    }

    /// The combo counter, 0 when no combo runs.
    pub fn combo(&self) -> (r: i32)
        ensures
            r == match self.spec_combo() {
                Some(c) => c,
                None => 0,
            },
    {
        match self.combo {
            Some(c) => c,
            None => 0,
        }
    }

    /// The back-to-back counter, 0 when no streak runs.
    pub fn back_to_back(&self) -> (r: i32)
        ensures
            r == match self.spec_back_to_back() {
                Some(c) => c,
                None => 0,
            },
    {
        match self.back_to_back {
            Some(c) => c,
            None => 0,
        }
    }

    /// What happened in the last frame.
    pub fn frame_outcome(&self) -> (r: &FrameOutcome)
        ensures
            *r == self.spec_frame_outcome(),
    {
        &self.frame_outcome
    }

    /// Frames played.
    pub fn frame(&self) -> (r: i32)
        ensures
            r == self.spec_frame(),
    {
        self.frame
    }

    /// The queued garbage batches, oldest first.
    pub fn garbage_queue(&self) -> (r: Vec<i32>)
        ensures
            r@ == self.spec_garbage(),
    {
        self.garbage_queue.to_vec()
    }

    /// Whether the game has ended.
    pub fn game_over(&self) -> (r: bool)
        ensures
            r == self.spec_game_over(),
    {
        self.game_over
    }

    /// Makes `piece` the piece in play (or clears it), recomputes the ghost, tracks the
    /// lowest row reached and the lock delay, and counts a reset; after more than
    /// `MAX_RESETS` resets the piece is forced down or locked.
    fn set_active(&mut self, piece: Option<Piece>, fuel: u32) -> (rest: u32)
        requires
            old(self).wf_core_but_clear(),
            piece is Some ==> old(self).wf_core(),
            old(self).ghost_in_bounds(),
            piece is Some ==> old(self).line_clear_timer.0 == 0,
            old(self).room(fuel + 1),
            piece matches Some(p) ==> p.wf() && in_bounds(p.x as int, p.y as int),
            piece matches Some(p) ==> fits(old(self).pile, p) || old(self).game_over || old(self).resets < MAX_RESETS,
        ensures
            piece is Some ==> final(self).stepped_loose(*old(self), fuel as int, rest as int),
            piece matches Some(p) ==> fits(old(self).pile, p) || old(self).game_over ==> final(self).stepped(
                *old(self),
                fuel as int,
                rest as int,
            ),
            piece is None ==> *final(self) == (Engine {
                active_piece: None,
                ghost_piece: None,
                ..*old(self)
            }) && rest == fuel,
            piece matches Some(p) ==> old(self).resets < MAX_RESETS || p.low() < old(self).lowest_y ==> {
                &&& final(self).active_piece == piece
                &&& final(self).resets == (if p.low() < old(self).lowest_y {
                    1
                } else {
                    old(self).resets + 1
                })
                &&& final(self).same_board(*old(self))
                &&& final(self).fall_timer == old(self).fall_timer
                &&& final(self).last_input_was_rotate == old(self).last_input_was_rotate
                &&& final(self).lowest_y == (if old(self).lowest_y <= p.low() {
                    old(self).lowest_y as int
                } else {
                    p.low()
                })
                &&& (fits(old(self).pile, p) ==> (final(self).ghost_piece matches Some(g)
                    && is_hard_drop(old(self).pile, p, g)))
                &&& rest == fuel
                &&& piece != old(self).active_piece ==> final(self).lock_timer.0 == (if fits_at(
                    old(self).pile,
                    p.kind,
                    p.orientation,
                    p.x as int,
                    p.y - 1,
                ) {
                    0
                } else {
                    LOCK_DELAY
                })
                &&& piece == old(self).active_piece ==> final(self).lock_timer == old(self).lock_timer
            },
        decreases fuel, 1int,
    {
        let p = match piece {
            None => {
                self.active_piece = None;
                self.ghost_piece = None;
                return fuel;
            },
            Some(p) => p,
        };

        let previous_piece = self.active_piece;
        let previous_lowest_y = self.lowest_y;

        self.active_piece = Some(p);

        let ghost pre = *self;
        let mut dy: i32 = 0;
        loop
            invariant
                self.wf_core(),
                self.ghost_in_bounds(),
                *self == (Engine { ghost_piece: self.ghost_piece, ..pre }),
                pre.active_piece == Some(p),
                p.wf(),
                in_bounds(p.x as int, p.y as int),
                0 <= dy <= p.y + 1,
                dy == 0 ==> self.ghost_piece == pre.ghost_piece,
                dy > 0 ==> (self.ghost_piece matches Some(g) && g.kind == p.kind && g.orientation
                    == p.orientation && g.x == p.x && g.y == p.y - (dy - 1) && g.wf()),
                forall|k: int|
                    p.y - dy < k <= p.y ==> #[trigger] fits_at(
                        self.pile,
                        p.kind,
                        p.orientation,
                        p.x as int,
                        k,
                    ),
            ensures
                self.wf_core(),
                self.ghost_in_bounds(),
                *self == (Engine { ghost_piece: self.ghost_piece, ..pre }),
                0 <= dy <= p.y + 1,
                dy == 0 ==> self.ghost_piece == pre.ghost_piece,
                dy > 0 ==> (self.ghost_piece matches Some(g) && g.kind == p.kind && g.orientation
                    == p.orientation && g.x == p.x && g.y == p.y - (dy - 1) && g.wf()),
                forall|k: int|
                    p.y - dy < k <= p.y ==> #[trigger] fits_at(
                        self.pile,
                        p.kind,
                        p.orientation,
                        p.x as int,
                        k,
                    ),
                !fits_at(self.pile, p.kind, p.orientation, p.x as int, p.y - dy),
            decreases p.y + 1 - dy,
        {
            match self.can_move(0, -dy, 0) {
                None => {
                    break;
                },
                Some(branched) => {
                    self.ghost_piece = Some(branched);
                    dy = dy + 1;
                },
            }
        }

        let active_lowest = p.lowest_y();
        self.lowest_y = if self.lowest_y <= active_lowest {
            self.lowest_y
        } else {
            active_lowest
        };

        if self.lowest_y < previous_lowest_y {
            self.resets = 0;
        }

        if self.active_piece != previous_piece {
            if self.can_move(0, -1, 0).is_none() {
                self.lock_timer.set(LOCK_DELAY);
            } else {
                self.lock_timer.stop();
            }
        }

        self.resets = self.resets + 1;

        if self.resets > MAX_RESETS {
            return self.try_lock(fuel);
        }
        fuel
    }

    /// Moves the piece in play down one row, or locks it where its ghost is.
    fn try_lock(&mut self, fuel: u32) -> (rest: u32)
        requires
            old(self).wf(),
            old(self).room(fuel as int),
        ensures
            final(self).stepped(*old(self), fuel as int, rest as int),
            fuel == 0 ==> *final(self) == *old(self) && rest == 0,
            old(self).active_piece is None ==> *final(self) == *old(self),
            old(self).active_piece matches Some(a) ==> fuel > 0 ==> fits_at(
                old(self).pile,
                a.kind,
                a.orientation,
                a.x as int,
                a.y - 1,
            ) ==> old(self).resets < MAX_RESETS ==> {
                &&& final(self).active_piece matches Some(q) && a.moved(q, 0, -1, 0)
                &&& final(self).same_board(*old(self))
                &&& rest == fuel - 1
            },
            old(self).active_piece matches Some(a) ==> fuel > 1 ==> fits(old(self).pile, a) ==> !fits_at(
                old(self).pile,
                a.kind,
                a.orientation,
                a.x as int,
                a.y - 1,
            ) ==> final(self).locked_at(*old(self), a),
            old(self).active_piece matches Some(a) ==> fuel > 6 ==> fits(old(self).pile, a) ==> !fits_at(
                old(self).pile,
                a.kind,
                a.orientation,
                a.x as int,
                a.y - 1,
            ) ==> final(self).spawn_after_lock(*old(self), a),
        decreases fuel, 0int,
    {
        if fuel == 0 {
            return 0;
        }
        let fuel = fuel - 1;
        match self.can_move(0, -1, 0) {
            None => {
                proof {
                    if let Some(a) = self.active_piece {
                        if fits(self.pile, a) {
                            let g = self.ghost_piece.unwrap();
                            lemma_piece_determined(g, a);
                        }
                    }
                }
                self.lock_ghost(fuel)
            },
            Some(piece) => self.set_active(Some(piece), fuel),
        }
    }

    /// Writes the ghost piece into the pile, scores the lock (line clears, T-spin,
    /// combo, back-to-back), pushes queued garbage, and spawns the next piece now or
    /// after the spawn delay. A ghost entirely above the visible grid ends the game.
    fn lock_ghost(&mut self, fuel: u32) -> (rest: u32)
        requires
            old(self).wf(),
            old(self).room(fuel as int),
        ensures
            final(self).stepped(*old(self), fuel as int, rest as int),
            fuel == 0 || old(self).ghost_piece is None ==> *final(self) == *old(self),
            old(self).ghost_piece matches Some(g) ==> fuel > 0 ==> final(self).locked_at(*old(self), g),
            old(self).ghost_piece matches Some(g) ==> fuel > 5 ==> final(self).spawn_after_lock(*old(self), g),
        decreases fuel, 0int,
    {
        if fuel == 0 {
            return 0;
        }
        let fuel = fuel - 1;
        let ghost_piece = match self.ghost_piece {
            None => {
                return fuel;
            },
            Some(g) => g,
        };

        if ghost_piece.lowest_y() >= GRID_HEIGHT {
            self.game_over = true;
            return fuel;
        }

        self.pile.write_piece(&ghost_piece);
        assert(written(self.pile, old(self).pile, ghost_piece));
        let ghost written_pile = self.pile;
        proof {
            crate::pile::lemma_written_completes_at_most_four(written_pile, old(self).pile, ghost_piece);
        }
        let lines_to_clear = self.pile.lines_to_clear();

        match self.hold {
            Some(h) => {
                self.hold = Some(HoldPiece { kind: h.kind, is_locked: false });
            },
            None => {},
        }

        self.frame_outcome.lines_cleared = lines_to_clear;

        self.frame_outcome.tspin = self.last_input_was_rotate && ghost_piece.kind == PieceKind::T
            && self.pile.check_tspin(ghost_piece.x, ghost_piece.y);
        let ghost tspin = self.frame_outcome.tspin;
        assert(tspin == (old(self).last_input_was_rotate && ghost_piece.kind == PieceKind::T
            && written_pile.corner_count(ghost_piece.x as int, ghost_piece.y as int) >= 3));

        self.fall_timer.stop();
        let fuel = self.set_active(None, fuel);
        let spawn_delay = self.score_lines(lines_to_clear);
        let ghost scored = *self;
        self.push_queued_garbage();
        assert(garbage_pushed(scored.pile, self.pile, garbage_total(garbage_deque_items(old(self).garbage_queue))));

        proof {
            assert forall|p1: Pile| #[trigger] written(p1, old(self).pile, ghost_piece) implies p1 == written_pile by {
                lemma_written_unique(p1, written_pile, old(self).pile, ghost_piece);
            }
        }
        let ghost pushed = *self;
        let rest = if spawn_delay > 0 {
            self.spawn_timer.set(spawn_delay);
            fuel
        } else {
            self.spawn_next(fuel)
        };
        proof {
            if !old(self).buffered_inputs.hold || !self.game_over {
                assert(self.pile == pushed.pile);
                let total = garbage_total(garbage_deque_items(old(self).garbage_queue));
                assert forall|p1: Pile| #[trigger] written(p1, old(self).pile, ghost_piece) implies exists|pm: Pile|
                    (if count_full(p1.0@) as int > 0 && old(self).config.line_clear == 0 {
                        cleared(p1, pm)
                    } else {
                        pm == p1
                    }) && #[trigger] garbage_pushed(pm, self.pile, total) by {
                    lemma_written_unique(p1, written_pile, old(self).pile, ghost_piece);
                    assert(garbage_pushed(scored.pile, self.pile, total));
                }
            }
        }
        rest
    }

    /// After a lock that completed `lines_to_clear` rows: starts the line-clear delay or
    /// clears the rows at once, updates the combo and back-to-back counters, and returns
    /// the delay before the next spawn.
    fn score_lines(&mut self, lines_to_clear: i32) -> (spawn_delay: u32)
        requires
            old(self).wf_core_but_clear(),
            old(self).ghost_in_bounds(),
            old(self).ghost_tracks(),
            old(self).active_piece is None,
            old(self).line_clear_timer.0 == 0,
            0 <= lines_to_clear <= PILE_HEIGHT,
            lines_to_clear == count_full(old(self).pile.0@),
            old(self).room(1),
        ensures
            final(self).wf_core_but_clear(),
            final(self).line_clear_timer.0 == 0 ==> final(self).pile.clean(),
            final(self).ghost_in_bounds(),
            final(self).ghost_tracks(),
            final(self).active_piece is None,
            final(self).line_clear_timer.0 <= spawn_delay,
            final(self).line_clear_timer.0 > 0 ==> final(self).line_clear_timer.0 == final(self).config.line_clear,
            spawn_delay == 0 ==> final(self).line_clear_timer.0 == 0,
            spawn_delay == spawn_delay_after(old(self).config, lines_to_clear as int),
            final(self).combo == next_combo(old(self).combo, lines_to_clear as int),
            lines_to_clear > 0 && old(self).config.line_clear == 0 ==> cleared(old(self).pile, final(self).pile),
            !(lines_to_clear > 0 && old(self).config.line_clear == 0) ==> final(self).pile == old(self).pile,
            final(self).back_to_back == next_back_to_back(
                old(self).back_to_back,
                lines_to_clear as int,
                old(self).frame_outcome.tspin,
            ),
            *final(self) == (Engine {
                pile: final(self).pile,
                line_clear_timer: final(self).line_clear_timer,
                combo: final(self).combo,
                back_to_back: final(self).back_to_back,
                ..*old(self)
            }),
    {
        let spawn_delay;
        if lines_to_clear > 0 {
            spawn_delay = if self.config.line_clear > self.config.are {
                self.config.line_clear
            } else {
                self.config.are
            };

            if self.config.line_clear > 0 {
                self.line_clear_timer.set(self.config.line_clear);
            } else {
                self.pile.line_clear();
            }

            match self.combo {
                Some(c) => {
                    self.combo = Some(c + 1);
                },
                None => {
                    self.combo = Some(0);
                },
            }
            if lines_to_clear == 4 || (lines_to_clear > 0 && self.frame_outcome.tspin) {
                match self.back_to_back {
                    Some(b) => {
                        self.back_to_back = Some(b + 1);
                    },
                    None => {
                        self.back_to_back = Some(0);
                    },
                }
            } else {
                self.back_to_back = None;
            }
        } else {
            spawn_delay = self.config.are;

            self.combo = None;
            proof {
                lemma_count_full_zero(self.pile.0@);
            }
        }
        spawn_delay
    }

    /// Pushes every queued garbage batch into the pile, each with its hole in a column
    /// drawn from the garbage generator, and empties the queue.
    fn push_queued_garbage(&mut self)
        requires
            old(self).wf_core_but_clear(),
            old(self).ghost_in_bounds(),
            old(self).ghost_tracks(),
            old(self).active_piece is None,
        ensures
            final(self).wf_core_but_clear(),
            final(self).ghost_in_bounds(),
            final(self).ghost_tracks(),
            final(self).spec_garbage() == Seq::<i32>::empty(),
            old(self).pile.clean() ==> final(self).pile.clean(),
            garbage_pushed(old(self).pile, final(self).pile, garbage_total(old(self).spec_garbage())),
            batches_alike(final(self).pile, old(self).spec_garbage()),
            batches_holed(final(self).pile, old(self).spec_garbage(), old(self).garbage_rng@.0, old(self).garbage_rng@.1),
            final(self).garbage_rng@ == (old(self).garbage_rng@.0, hole_draws(
                old(self).garbage_rng@.1,
                old(self).spec_garbage().len() as int,
            )),
            old(self).spec_garbage().len() == 0 ==> *final(self) == *old(self),
            *final(self) == (Engine {
                pile: final(self).pile,
                garbage_rng: final(self).garbage_rng,
                garbage_queue: final(self).garbage_queue,
                ..*old(self)
            }),
    {
        if !self.garbage_queue.is_empty() {
            let batches = self.garbage_queue.to_vec();
            let ghost pre = *self;
            let mut j: usize = 0;
            while j < batches.len()
                invariant
                    j <= batches@.len(),
                    batches@ == garbage_deque_items(self.garbage_queue),
                    self.wf_core_but_clear(),
                    self.active_piece is None,
                    self.ghost_piece is None,
                    *self == (Engine { pile: self.pile, garbage_rng: self.garbage_rng, ..pre }),
                    pre == *old(self),
                    pre.pile.clean() ==> self.pile.clean(),
                    garbage_pushed(pre.pile, self.pile, garbage_total(batches@.take(j as int))),
                    0 <= garbage_total(batches@.take(j as int)),
                    batches_alike(self.pile, batches@.take(j as int)),
                    batches_holed(self.pile, batches@.take(j as int), pre.garbage_rng@.0, pre.garbage_rng@.1),
                    self.garbage_rng@ == (pre.garbage_rng@.0, hole_draws(pre.garbage_rng@.1, j as int)),
                decreases batches@.len() - j,
            {
                let lines = batches[j];
                let column = self.garbage_rng.random_range(0, 10);
                let ghost mid = self.pile;
                self.pile.push_garbage(lines, column);
                proof {
                    assert(hole_draws(pre.garbage_rng@.1, j as int).push(Draw::Range(0, 10)) =~= hole_draws(
                        pre.garbage_rng@.1,
                        j + 1,
                    ));
                    assert(batches@.take(j + 1).drop_last() =~= batches@.take(j as int));
                    let t = garbage_total(batches@.take(j as int));
                    assert forall|y: int| t + lines <= y < PILE_HEIGHT implies #[trigger] self.pile.0[y] == pre.pile.0[y - (t + lines)] by {
                        assert(self.pile.0[y] == mid.0[y - lines]);
                    }
                    assert forall|y: int| 0 <= y < t + lines && y < PILE_HEIGHT implies crate::pile::garbage_row(#[trigger] self.pile.0[y]) by {
                        if y >= lines {
                            assert(self.pile.0[y] == mid.0[y - lines]);
                        }
                    }
                    let pp = batches@.take(j as int);
                    let pn = batches@.take(j + 1);
                    assert(pn =~= pp.push(lines));
                    assert forall|k: int| 0 <= k < pp.len() implies #[trigger] rows_below_batch(pn, k)
                        == rows_below_batch(pp, k) + lines && rows_below_batch(pp, k) >= 0 by {
                        assert(pn.skip(k + 1) =~= pp.skip(k + 1).push(lines));
                        crate::pile::lemma_garbage_total_push(pp.skip(k + 1), lines);
                        assert forall|i: int| 0 <= i < pp.skip(k + 1).len() implies #[trigger] pp.skip(k + 1)[i] >= 0 by {
                            assert(pp.skip(k + 1)[i] == batches@[k + 1 + i]);
                        }
                        crate::pile::lemma_garbage_total_nonneg(pp.skip(k + 1));
                    }
                    assert(pn.skip(j + 1) =~= Seq::<i32>::empty());
                    assert(rows_below_batch(pn, j as int) == 0);
                    let seed = pre.garbage_rng@.0;
                    let h0 = pre.garbage_rng@.1;
                    assert forall|k: int, y: int|
                        0 <= k < pn.len() && rows_below_batch(pn, k) <= y < rows_below_batch(pn, k) + pn[k] && y
                            < PILE_HEIGHT implies #[trigger] holed_at(
                        self.pile.0[y],
                        range_draw(seed, hole_draws(h0, k), 0, 10) as int,
                    ) by {
                        if k == j {
                            assert forall|x: int| 0 <= x < PILE_WIDTH implies #[trigger] self.pile.0[y][x] == (if x
                                == column as int {
                                None
                            } else {
                                Some(crate::types::Cell::Garbage)
                            }) by {
                                assert(self.pile.cell(x, y) == self.pile.0[y][x]);
                            }
                        } else {
                            assert(pn[k] == pp[k]);
                            assert(self.pile.0[y] == mid.0[y - lines]);
                            assert(holed_at(mid.0[y - lines], range_draw(seed, hole_draws(h0, k), 0, 10) as int));
                        }
                    }
                    assert forall|k: int, y1: int, y2: int, x: int|
                        #![trigger self.pile.0[y1][x], self.pile.0[y2][x], rows_below_batch(pn, k)]
                        0 <= k < pn.len() && rows_below_batch(pn, k) <= y1 < rows_below_batch(pn, k) + pn[k]
                            && rows_below_batch(pn, k) <= y2 < rows_below_batch(pn, k) + pn[k] && y1 < PILE_HEIGHT
                            && y2 < PILE_HEIGHT && 0 <= x < PILE_WIDTH implies self.pile.0[y1][x] == self.pile.0[y2][x] by {
                        if k == j {
                            assert(self.pile.cell(x, y1) == self.pile.cell(x, y2));
                        } else {
                            assert(pn[k] == pp[k]);
                            assert(self.pile.0[y1] == mid.0[y1 - lines]);
                            assert(self.pile.0[y2] == mid.0[y2 - lines]);
                            assert(mid.0[y1 - lines][x] == mid.0[y2 - lines][x]);
                        }
                    }
                }
                j = j + 1;
            }
            assert(batches@.take(batches@.len() as int) =~= batches@);

            self.garbage_queue.clear();
        }
    }

    /// Takes the next piece from the queue and spawns it.
    fn spawn_next(&mut self, fuel: u32) -> (rest: u32)
        requires
            old(self).wf(),
            old(self).line_clear_timer.0 == 0,
            old(self).room(fuel as int),
        ensures
            final(self).stepped(*old(self), fuel as int, rest as int),
            fuel == 0 ==> *final(self) == *old(self),
            !final(self).game_over ==> final(self).same_score(*old(self)),
            !old(self).buffered_inputs.hold ==> final(self).same_tally(*old(self)) && final(self).hold == old(self).hold,
            fuel > 1 && !final(self).game_over ==> final(self).calm(8) && final(self).buffered_inputs == (
            BufferedInputs { hold: false, rotation: 0 }),
            fuel > 1 && !old(self).buffered_inputs.hold && !final(self).game_over ==> final(self).hold == old(self).hold && (final(self).active_piece matches Some(a) && a.kind == old(self).next_queue.items()[0]),
            fuel > 1 && !fits_at(old(self).pile, old(self).next_queue.items()[0], Orientation::N, 4, 22)
                ==> final(self).game_over,
            fuel > 1 && !fits_at(old(self).pile, old(self).next_queue.items()[0], Orientation::N, 4, 22)
                ==> final(self).resets == 1,
            fuel > 1 && !old(self).buffered_inputs.hold && !final(self).game_over ==> pulled(
                old(self).next_queue.items(),
                final(self).next_queue.items(),
            ),
            fuel > 1 && fits_at(old(self).pile, old(self).next_queue.items()[0], Orientation::N, 4, 22)
                && !old(self).buffered_inputs.hold && !old(self).game_over ==> !final(self).game_over,
            fuel > 4 && fits_at(old(self).pile, old(self).next_queue.items()[0], Orientation::N, 4, 22)
                && !old(self).buffered_inputs.hold && old(self).buffered_inputs.rotation == 0 && !old(self).game_over
                && old(self).fall_delay() > 0 ==> {
                &&& final(self).active_piece matches Some(a) && a.kind == old(self).next_queue.items()[0]
                    && a.orientation == Orientation::N && a.x == 4 && a.y == spawn_row(
                    old(self).pile,
                    old(self).next_queue.items()[0],
                )
                &&& final(self).fall_timer.0 == old(self).fall_delay()
                &&& final(self).resets == 1
                &&& old(self).active_piece is None ==> final(self).lock_timer.0 == (if fits_at(
                    old(self).pile,
                    old(self).next_queue.items()[0],
                    Orientation::N,
                    4,
                    spawn_row(old(self).pile, old(self).next_queue.items()[0]) - 1,
                ) {
                    0
                } else {
                    LOCK_DELAY
                })
            },
        decreases fuel, 0int,
    {
        if fuel == 0 {
            return 0;
        }
        let fuel = fuel - 1;
        let piece = self.next_queue.pull();
        self.spawn(piece, fuel)
    }

    /// Puts a new piece of kind `kind` at the spawn point; if it overlaps the pile the
    /// game ends. Otherwise it drops one row if it can, buffered hold and rotation are
    /// applied, and gravity starts.
    fn spawn(&mut self, kind: PieceKind, fuel: u32) -> (rest: u32)
        requires
            old(self).wf(),
            old(self).line_clear_timer.0 == 0,
            old(self).room(fuel as int),
        ensures
            final(self).stepped(*old(self), fuel as int, rest as int),
            fuel == 0 ==> *final(self) == *old(self),
            !final(self).game_over ==> final(self).same_score(*old(self)),
            !old(self).buffered_inputs.hold ==> final(self).same_tally(*old(self)) && final(self).hold == old(self).hold,
            fuel > 0 && !final(self).game_over ==> {
                &&& final(self).calm(8)
                &&& final(self).buffered_inputs == (BufferedInputs { hold: false, rotation: 0 })
            },
            fuel > 0 && !fits_at(old(self).pile, kind, Orientation::N, 4, 22) ==> final(self).game_over,
            fuel > 0 && !old(self).buffered_inputs.hold && !final(self).game_over ==> {
                &&& final(self).hold == old(self).hold
                &&& final(self).next_queue == old(self).next_queue
                &&& final(self).active_piece matches Some(a) && a.kind == kind
            },
            fuel > 0 && fits_at(old(self).pile, kind, Orientation::N, 4, 22) && !old(self).buffered_inputs.hold && !old(self).game_over ==> !final(self).game_over,
            fuel > 0 && !fits_at(old(self).pile, kind, Orientation::N, 4, 22) ==> final(self).resets == 1,
            fuel > 0 && !fits_at(old(self).pile, kind, Orientation::N, 4, 22) ==> final(self).game_over && (
            final(self).active_piece matches Some(a) && a.kind == kind && a.orientation == Orientation::N && a.x == 4
                && a.y == 22) && final(self).pile == old(self).pile && final(self).hold == old(self).hold
                && final(self).next_queue == old(self).next_queue,
            fuel > 5 && fits_at(old(self).pile, kind, Orientation::N, 4, 22) && old(self).buffered_inputs.hold
                && !old(self).game_over && (old(self).hold is None || !old(self).hold.unwrap().is_locked)
                && !final(self).game_over ==> final(self).hold == Some(HoldPiece { kind, is_locked: true }),
            fuel > 3 && fits_at(old(self).pile, kind, Orientation::N, 4, 22) && !old(self).buffered_inputs.hold
                && old(self).buffered_inputs.rotation != 0 && !old(self).game_over && old(self).fall_delay() > 0 ==> {
                &&& exists|a: Piece|
                    a.wf() && a.kind == kind && a.orientation == Orientation::N && a.x == 4 && a.y == spawn_row(
                        old(self).pile,
                        kind,
                    ) && #[trigger] kicked(
                        old(self).pile,
                        a,
                        old(self).buffered_inputs.rotation as int,
                        final(self).active_piece,
                    )
                &&& final(self).buffered_inputs.rotation == 0
            },
            fuel > 3 && fits_at(old(self).pile, kind, Orientation::N, 4, 22) && !old(self).buffered_inputs.hold
                && old(self).buffered_inputs.rotation == 0 && !old(self).game_over && old(self).fall_delay() > 0 ==> {
                &&& final(self).active_piece matches Some(a) && a.kind == kind && a.orientation == Orientation::N
                    && a.x == 4 && a.y == spawn_row(old(self).pile, kind)
                &&& final(self).fall_timer.0 == old(self).fall_delay()
                &&& old(self).active_piece is None ==> final(self).lock_timer.0 == (if fits_at(
                    old(self).pile,
                    kind,
                    Orientation::N,
                    4,
                    spawn_row(old(self).pile, kind) - 1,
                ) {
                    0
                } else {
                    LOCK_DELAY
                })
            },
            fuel > 3 && fits_at(old(self).pile, kind, Orientation::N, 4, 22) && !old(self).buffered_inputs.hold
                && old(self).buffered_inputs.rotation == 0 && !old(self).game_over && old(self).fall_delay() > 0
                ==> final(self).resets == 1,
        decreases fuel, 0int,
    {
        let ghost old_fuel = fuel;
        if fuel == 0 {
            return 0;
        }
        let fuel = fuel - 1;
        // The reset count goes back to zero before the new piece becomes active.
        self.resets = 0;
        let spawned = Piece::spawn(kind);
        let mut fuel = self.set_active(Some(spawned), fuel);
        let active_piece = match self.active_piece {
            Some(a) => a,
            None => {
                assert(false);
                return fuel;
            },
        };
        proof {
            lemma_collision_iff_misfit(self.pile, active_piece);
        }
        if self.pile.check_collision(&active_piece.blocks) {
            self.game_over = true;
            return fuel;
        }
        self.lowest_y = active_piece.lowest_y();
        assert(self.calm(1));

        fuel = self.fall(fuel);

        if self.buffered_inputs.hold {
            self.buffered_inputs.hold = false;
            fuel = self.do_hold(fuel);
        }

        let ghost before_turn = *self;
        if self.buffered_inputs.rotation != 0 {
            fuel = self.rotate(self.buffered_inputs.rotation, fuel);
            self.buffered_inputs.rotation = 0;
        }
        let ghost after_turn = *self;

        let rest = self.set_fall_timer(fuel);
        proof {
            if old_fuel > 3 && fits_at(old(self).pile, kind, Orientation::N, 4, 22) && !old(self).buffered_inputs.hold
                && old(self).buffered_inputs.rotation != 0 && !old(self).game_over && old(self).fall_delay() > 0 {
                let a = before_turn.active_piece.unwrap();
                assert(kicked(old(self).pile, a, old(self).buffered_inputs.rotation as int, after_turn.active_piece));
                assert(self.active_piece == after_turn.active_piece);
            }
        }
        rest
    }

    /// Moves the piece in play one column in `direction` if it fits.
    fn do_move(&mut self, direction: Direction, fuel: u32) -> (rest: u32)
        requires
            old(self).wf(),
            old(self).room(fuel as int),
        ensures
            final(self).stepped(*old(self), fuel as int, rest as int),
            fuel == 0 ==> *final(self) == *old(self),
            old(self).active_piece is None ==> *final(self) == *old(self),
            old(self).calm(13) ==> final(self).calm(old(self).strain() + 1) && final(self).same_board(*old(self)),
            0 <= old(self).resets < MAX_RESETS && fuel > 0 ==> final(self).shifted(*old(self), direction_offset(direction), 0)
                && (final(self).lock_timer == old(self).lock_timer || final(self).lock_timer.0 == 0
                || final(self).lock_timer.0 == LOCK_DELAY) && final(self).fall_timer == old(self).fall_timer
                && 0 <= final(self).resets <= old(self).resets + 1 && rest == fuel - 1,
            old(self).active_piece matches Some(a) ==> 0 <= old(self).resets < MAX_RESETS ==> fuel > 0 ==> {
                &&& fits_at(old(self).pile, a.kind, a.orientation, a.x + direction_offset(direction), a.y as int)
                    ==> final(self).lock_timer.0 == (if fits_at(
                    old(self).pile,
                    a.kind,
                    a.orientation,
                    a.x + direction_offset(direction),
                    a.y - 1,
                ) {
                    0
                } else {
                    LOCK_DELAY
                })
                &&& final(self).same_board(*old(self))
            },
            old(self).active_piece matches Some(a) ==> 0 <= old(self).resets < MAX_RESETS ==> fuel > 0 ==> (
            final(self).active_piece matches Some(q) && (fits_at(
                old(self).pile,
                a.kind,
                a.orientation,
                a.x + direction_offset(direction),
                a.y as int,
            ) ==> a.moved(q, direction_offset(direction), 0, 0)) && (!fits_at(
                old(self).pile,
                a.kind,
                a.orientation,
                a.x + direction_offset(direction),
                a.y as int,
            ) ==> *final(self) == *old(self)) && final(self).same_board(*old(self))),
            old(self).active_piece matches Some(a) ==> old(self).calm(13) ==> fuel > 0 ==> (
            final(self).active_piece matches Some(q) && (fits_at(
                old(self).pile,
                a.kind,
                a.orientation,
                a.x + direction_offset(direction),
                a.y as int,
            ) ==> a.moved(q, direction_offset(direction), 0, 0)) && (!fits_at(
                old(self).pile,
                a.kind,
                a.orientation,
                a.x + direction_offset(direction),
                a.y as int,
            ) ==> q == a)),
    {
        if fuel == 0 {
            return 0;
        }
        let fuel = fuel - 1;
        let piece = match self.can_move(direction.offset(), 0, 0) {
            None => {
                return fuel;
            },
            Some(p) => p,
        };
        proof {
            let a = self.active_piece.unwrap();
            crate::piece::lemma_low(a);
            crate::piece::lemma_low(piece);
        }

        self.last_input_was_rotate = false;

        self.set_active(Some(piece), fuel)
    }

    /// Moves the piece in play one row down if it fits.
    fn fall(&mut self, fuel: u32) -> (rest: u32)
        requires
            old(self).wf(),
            old(self).room(fuel as int),
        ensures
            final(self).stepped(*old(self), fuel as int, rest as int),
            fuel == 0 ==> *final(self) == *old(self),
            old(self).active_piece is None ==> *final(self) == *old(self),
            old(self).calm(14) ==> final(self).active_piece.unwrap().kind == old(self).active_piece.unwrap().kind,
            old(self).calm(14) ==> final(self).calm(
                if old(self).strain() >= 1 {
                    old(self).strain()
                } else {
                    1
                },
            ) && final(self).same_board(*old(self)),
            old(self).calm(14) && fuel > 0 ==> rest == fuel - 1 && final(self).fall_timer == old(self).fall_timer
                && final(self).movement == old(self).movement,
            old(self).active_piece matches Some(a) ==> 0 <= old(self).resets < MAX_RESETS ==> fuel > 0 ==> (
            final(self).active_piece matches Some(q) && (fits_at(
                old(self).pile,
                a.kind,
                a.orientation,
                a.x as int,
                a.y - 1,
            ) ==> a.moved(q, 0, -1, 0)) && (!fits_at(
                old(self).pile,
                a.kind,
                a.orientation,
                a.x as int,
                a.y - 1,
            ) ==> *final(self) == *old(self)) && final(self).same_board(*old(self)) && rest == fuel - 1
                && final(self).fall_timer == old(self).fall_timer && (final(self).lock_timer == old(self).lock_timer
                || final(self).lock_timer.0 == 0 || final(self).lock_timer.0 == LOCK_DELAY)),
            old(self).active_piece matches Some(a) ==> 0 <= old(self).resets < MAX_RESETS ==> fuel > 0 ==> fits_at(
                old(self).pile,
                a.kind,
                a.orientation,
                a.x as int,
                a.y - 1,
            ) ==> final(self).lock_timer.0 == (if fits_at(old(self).pile, a.kind, a.orientation, a.x as int, a.y - 2) {
                0
            } else {
                LOCK_DELAY
            }) && final(self).resets == (if a.low() - 1 < old(self).lowest_y {
                1
            } else {
                old(self).resets + 1
            }),
            old(self).active_piece matches Some(a) ==> old(self).calm(14) ==> fuel > 0 ==> (
            final(self).active_piece matches Some(q) && (fits_at(
                old(self).pile,
                a.kind,
                a.orientation,
                a.x as int,
                a.y - 1,
            ) ==> a.moved(q, 0, -1, 0)) && (!fits_at(
                old(self).pile,
                a.kind,
                a.orientation,
                a.x as int,
                a.y - 1,
            ) ==> q == a)),
        decreases fuel, 0int,
    {
        if fuel == 0 {
            return 0;
        }
        let fuel = fuel - 1;
        match self.can_move(0, -1, 0) {
            None => fuel,
            Some(piece) => {
                proof {
                    self.lemma_drop_strain(piece);
                }
                self.set_active(Some(piece), fuel)
            },
        }
    }

    /// Starts the fall timer at the gravity (or soft drop) delay; a delay of zero drops
    /// the piece as far as it goes at once.
    fn set_fall_timer(&mut self, fuel: u32) -> (rest: u32)
        requires
            old(self).wf(),
            old(self).room(fuel as int),
        ensures
            final(self).stepped(*old(self), fuel as int, rest as int),
            old(self).calm(14) ==> final(self).calm(
                if old(self).strain() >= 1 {
                    old(self).strain()
                } else {
                    1
                },
            ) && final(self).same_board(*old(self)),
            fuel > 0 && old(self).fall_delay() > 0 ==> final(self).fall_timer.0 == old(self).fall_delay() && final(self).active_piece == old(self).active_piece,
            fuel > 0 && old(self).fall_delay() > 0 ==> *final(self) == (Engine { fall_timer: final(self).fall_timer, ..*old(self) }) && rest == fuel - 1,
            old(self).calm(14) && fuel > 0 && old(self).fall_delay() == 0 ==> final(self).fall_timer.0 == 1,
            fuel == 0 ==> *final(self) == *old(self),
            old(self).active_piece is None ==> *final(self) == (Engine { fall_timer: final(self).fall_timer, ..*old(self) }),
            old(self).calm(14) ==> final(self).active_piece.unwrap().kind == old(self).active_piece.unwrap().kind,
            old(self).calm(14) && old(self).fall_delay() == 0 && rest > 0 ==> (final(self).active_piece matches Some(q) && !fits_at(
                final(self).pile,
                q.kind,
                q.orientation,
                q.x as int,
                q.y - 1,
            )),
        decreases fuel, 0int,
    {
        if fuel == 0 {
            return 0;
        }
        let fuel = fuel - 1;
        let timeout = if self.movement.soft_dropping {
            self.config.softdrop
        } else {
            self.config.gravity
        };

        if timeout > 0 {
            self.fall_timer.set(timeout);
            fuel
        } else {
            self.fall_timer.set(1);
            let piece = match self.can_move(0, -1, 0) {
                None => {
                    return fuel;
                },
                Some(p) => p,
            };
            proof {
                self.lemma_drop_strain(piece);
            }

            let fuel = self.set_active(Some(piece), fuel);
            self.set_fall_timer(fuel)
        }
    }

    /// Turns the piece in play clockwise `count` times, trying the five kick offsets in
    /// order; without a piece in play the rotation is buffered for the next spawn.
    fn rotate(&mut self, count: i32, fuel: u32) -> (rest: u32)
        requires
            old(self).wf(),
            old(self).room(fuel as int),
            0 <= count,
            count <= 3 || count == old(self).buffered_inputs.rotation,
        ensures
            final(self).wf(),
            0 <= rest <= fuel,
            final(self).config == old(self).config,
            final(self).frame == old(self).frame,
            final(self).movement == old(self).movement,
            final(self).das_timer == old(self).das_timer,
            old(self).game_over ==> final(self).game_over,
            final(self).garbage_kept_or_spent(*old(self)),
            final(self).ceilings_kept(*old(self)),
            final(self).buffered_inputs.rotation <= old(self).buffered_inputs.rotation + count,
            count <= 3 ==> final(self).room(rest as int),
            final(self).buffered_inputs.rotation == old(self).buffered_inputs.rotation + count
                ==> final(self).room_but_rotation(rest as int),
            final(self).buffered_inputs.rotation != old(self).buffered_inputs.rotation + count
                ==> final(self).room(rest as int) && final(self).buffered_inputs.rotation
                <= old(self).buffered_inputs.rotation,
            fuel == 0 ==> *final(self) == *old(self),
            old(self).calm(7) ==> final(self).active_piece.unwrap().kind == old(self).active_piece.unwrap().kind,
            fuel > 0 && old(self).active_piece is None ==> *final(self) == (Engine {
                buffered_inputs: BufferedInputs {
                    rotation: (old(self).buffered_inputs.rotation + count) as i32,
                    ..old(self).buffered_inputs
                },
                ..*old(self)
            }),
            old(self).calm(7) ==> final(self).calm(old(self).strain() + 7) && final(self).same_board(*old(self)),
            0 <= old(self).resets < MAX_RESETS && fuel > 0 ==> final(self).turned(*old(self), count as int),
            old(self).active_piece matches Some(a) ==> fuel > 0 ==> (forall|n: int|
                0 <= n < 5 ==> !#[trigger] kick_fits(old(self).pile, a, count as int, n)) ==> *final(self) == (Engine {
                last_input_was_rotate: true,
                ..*old(self)
            }),
            old(self).active_piece matches Some(a) ==> 0 <= old(self).resets < MAX_RESETS ==> fuel > 0 ==> {
                &&& final(self).last_input_was_rotate
                &&& final(self).same_board(*old(self))
                &&& (forall|n: int| 0 <= n < 5 ==> !#[trigger] kick_fits(old(self).pile, a, count as int, n))
                    ==> final(self).active_piece == Some(a)
                &&& forall|n: int|
                    0 <= n < 5 && #[trigger] kick_fits(old(self).pile, a, count as int, n) && (forall|m: int|
                        0 <= m < n ==> !kick_fits(old(self).pile, a, count as int, m)) ==> (final(self).active_piece matches Some(q) && a.moved(
                        q,
                        kick(a.kind, a.orientation, count as int, n).0 as int,
                        kick(a.kind, a.orientation, count as int, n).1 as int,
                        count as int,
                    ))
            },
            old(self).active_piece matches Some(a) ==> old(self).calm(7) ==> fuel > 0 ==> {
                &&& final(self).last_input_was_rotate
                &&& (forall|n: int| 0 <= n < 5 ==> !#[trigger] kick_fits(old(self).pile, a, count as int, n))
                    ==> final(self).active_piece == Some(a)
                &&& forall|n: int|
                    0 <= n < 5 && #[trigger] kick_fits(old(self).pile, a, count as int, n) && (forall|m: int|
                        0 <= m < n ==> !kick_fits(old(self).pile, a, count as int, m)) ==> (final(self).active_piece matches Some(q) && a.moved(
                        q,
                        kick(a.kind, a.orientation, count as int, n).0 as int,
                        kick(a.kind, a.orientation, count as int, n).1 as int,
                        count as int,
                    ))
            },
        decreases fuel, 0int,
    {
        if fuel == 0 {
            return 0;
        }
        let active_piece = match self.active_piece {
            None => {
                self.buffered_inputs.rotation = self.buffered_inputs.rotation + count;
                return fuel - 1;
            },
            Some(a) => a,
        };

        self.last_input_was_rotate = true;

        let ghost start = *self;
        let mut left: u32 = fuel - 1;
        let mut done = false;
        let mut n: i32 = 0;
        while n < 5 && !done
            invariant
                0 <= n <= 5,
                start.active_piece == Some(active_piece),
                start.pile == old(self).pile,
                start.last_input_was_rotate,
                *old(self) == (Engine { last_input_was_rotate: old(self).last_input_was_rotate, ..start }),
                forall|m: int| 0 <= m < (if done { n - 1 } else { n as int }) ==> !#[trigger] kick_fits(start.pile, active_piece, count as int, m),
                done ==> n >= 1 && kick_fits(start.pile, active_piece, count as int, n - 1),
                !done ==> *self == start,
                done && old(self).calm(7) ==> self.calm(old(self).strain() + 7) && self.same_board(*old(self)) && self.last_input_was_rotate
                    && self.active_piece.unwrap().kind == active_piece.kind
                    && (self.active_piece matches Some(q) && active_piece.moved(
                        q,
                        kick(active_piece.kind, active_piece.orientation, count as int, n - 1).0 as int,
                        kick(active_piece.kind, active_piece.orientation, count as int, n - 1).1 as int,
                        count as int,
                    )),
                done && 0 <= old(self).resets < MAX_RESETS ==> self.same_board(*old(self)) && self.last_input_was_rotate
                    && (self.active_piece matches Some(q) && active_piece.moved(
                        q,
                        kick(active_piece.kind, active_piece.orientation, count as int, n - 1).0 as int,
                        kick(active_piece.kind, active_piece.orientation, count as int, n - 1).1 as int,
                        count as int,
                    )),
                self.wf(),
                self.room(left as int),
                !done ==> self.room(left + 1),
                left < fuel,
                self.config == old(self).config,
                self.frame == old(self).frame,
                self.movement == old(self).movement,
                self.das_timer == old(self).das_timer,
                old(self).game_over ==> self.game_over,
                self.garbage_kept_or_spent(*old(self)),
                self.ceilings_kept(*old(self)),
                self.buffered_inputs.rotation <= old(self).buffered_inputs.rotation,
                !done ==> self.active_piece == Some(active_piece),
            decreases 5 - n,
        {
            let (kick_x, kick_y) = kick_offset(active_piece.kind, active_piece.orientation, count, n);
            match self.can_move(kick_x, kick_y, count) {
                Some(piece) => {
                    proof {
                        self.lemma_kick_strain(piece, kick_x as int, kick_y as int, count as int);
                    }
                    left = self.set_active(Some(piece), left);
                    done = true;
                },
                None => {},
            }
            n = n + 1;
        }
        proof {
            if 0 <= old(self).resets < MAX_RESETS {
                lemma_turned(*self, *old(self), count as int);
            }
        }
        left
    }

    /// Swaps the piece in play with the held piece (or the next piece when nothing is
    /// held) unless the hold is locked; without a piece in play the hold is buffered.
    fn do_hold(&mut self, fuel: u32) -> (rest: u32)
        requires
            old(self).wf(),
            old(self).room(fuel as int),
        ensures
            final(self).stepped(*old(self), fuel as int, rest as int),
            fuel == 0 ==> *final(self) == *old(self),
            !final(self).game_over && old(self).calm(8) ==> final(self).same_score(*old(self)) && (
            (final(self).calm(old(self).strain()) && final(self).buffered_inputs == old(self).buffered_inputs) || (final(self).calm(8) && final(self).buffered_inputs == (
            BufferedInputs { hold: false, rotation: 0 }))),
            fuel > 0 && old(self).active_piece is None ==> *final(self) == (Engine {
                buffered_inputs: BufferedInputs { hold: true, ..old(self).buffered_inputs },
                ..*old(self)
            }),
            fuel > 0 && old(self).active_piece is Some && (old(self).hold matches Some(h)
                && h.is_locked) ==> *final(self) == *old(self),
            old(self).active_piece matches Some(a) ==> fuel > 1 && !old(self).buffered_inputs.hold
                && !final(self).game_over && (old(self).hold is None || !old(self).hold.unwrap().is_locked)
                ==> {
                &&& final(self).hold == Some(HoldPiece { kind: a.kind, is_locked: true })
                &&& old(self).hold is None ==> pulled(old(self).next_queue.items(), final(self).next_queue.items())
                &&& old(self).hold is Some ==> final(self).next_queue == old(self).next_queue
                &&& final(self).active_piece matches Some(q) && q.kind == (match old(self).hold {
                    Some(h) => h.kind,
                    None => old(self).next_queue.items()[0],
                })
            },
        decreases fuel, 0int,
    {
        if fuel == 0 {
            return 0;
        }
        let fuel = fuel - 1;
        let active_piece = match self.active_piece {
            None => {
                self.buffered_inputs.hold = true;
                return fuel;
            },
            Some(a) => a,
        };

        let piece = match self.hold {
            Some(h) => {
                if !h.is_locked {
                    h.kind
                } else {
                    return fuel;
                }
            },
            None => self.next_queue.pull(),
        };

        self.hold = Some(HoldPiece { kind: active_piece.kind, is_locked: true });
        self.fall_timer.stop();
        self.spawn(piece, fuel)
    }

    /// The piece in play moved by `(dx, dy)` and turned `rotate_cw` times, if it fits.
    fn can_move(&self, dx: i32, dy: i32, rotate_cw: i32) -> (r: Option<Piece>)
        requires
            self.wf_core(),
            -(i32::MAX - 64) <= dx <= i32::MAX - 64,
            -(i32::MAX - 64) <= dy <= i32::MAX - 64,
        ensures
            self.active_piece is None ==> r is None,
            self.active_piece matches Some(a) ==> {
                &&& (r is Some <==> fits_at(
                    self.pile,
                    a.kind,
                    rotated(a.orientation, rotate_cw as int),
                    a.x + dx,
                    a.y + dy,
                ))
                &&& (r matches Some(p) ==> a.moved(p, dx as int, dy as int, rotate_cw as int) && fits(
                    self.pile,
                    p,
                ) && blocks_in_bounds(p) && in_bounds(p.x as int, p.y as int))
            },
    {
        let active_piece = match self.active_piece {
            None => {
                return None;
            },
            Some(a) => a,
        };

        let branched = active_piece.changed_by(dx, dy, rotate_cw);
        let collides = self.pile.check_collision(&branched.blocks);
        proof {
            let k = branched.kind;
            let o = branched.orientation;
            let x = branched.x as int;
            let y = branched.y as int;
            assert forall|i: int| 0 <= i < 4 implies (#[trigger] branched.blocks[i].0 as int, branched.blocks[i].1 as int)
                == placed_block(k, o, x, y, i) by {}
            if !collides {
                assert forall|i: int| 0 <= i < 4 implies !self.pile.blocked(
                    #[trigger] placed_block(k, o, x, y, i).0,
                    placed_block(k, o, x, y, i).1,
                ) by {
                    assert(branched.blocks@[i] == branched.blocks[i]);
                }
                lemma_block_offsets_shape(k, o);
                assert(placed_block(k, o, x, y, 0) == (x, y));
                assert forall|i: int| 0 <= i < 4 implies in_bounds(
                    #[trigger] branched.blocks[i].0 as int,
                    branched.blocks[i].1 as int,
                ) by {
                    assert(branched.blocks@[i] == branched.blocks[i]);
                }
            } else {
                let i = choose|i: int|
                    0 <= i < branched.blocks@.len() && self.pile.blocked(
                        branched.blocks@[i].0 as int,
                        branched.blocks@[i].1 as int,
                    );
                assert(branched.blocks@[i] == branched.blocks[i]);
                assert(self.pile.blocked(placed_block(k, o, x, y, i).0, placed_block(k, o, x, y, i).1));
            }
        }
        if collides {
            return None;
        }

        Some(branched)
    }
}

} // verus!
