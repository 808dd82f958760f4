//! Shape and rotation-kick tables.
use vstd::prelude::*;
use crate::types::{rotated, Coords, Orientation, PieceKind};

verus! {

/// Block offsets, relative to the pivot, of a piece of kind `kind` facing `orientation`.
pub open spec fn block_offsets(kind: PieceKind, orientation: Orientation) -> Seq<Coords> {
    match (kind, orientation) {
        (PieceKind::I, Orientation::N) => seq![(0i32, 0i32), (-1i32, 0i32), (1i32, 0i32), (2i32, 0i32)],
        (PieceKind::I, Orientation::E) => seq![(0i32, 0i32), (0i32, -2i32), (0i32, -1i32), (0i32, 1i32)],
        (PieceKind::I, Orientation::S) => seq![(0i32, 0i32), (-2i32, 0i32), (-1i32, 0i32), (1i32, 0i32)],
        (PieceKind::I, Orientation::W) => seq![(0i32, 0i32), (0i32, -1i32), (0i32, 1i32), (0i32, 2i32)],
        (PieceKind::J, Orientation::N) => seq![(0i32, 0i32), (-1i32, 0i32), (-1i32, 1i32), (1i32, 0i32)],
        (PieceKind::J, Orientation::E) => seq![(0i32, 0i32), (0i32, 1i32), (1i32, 1i32), (0i32, -1i32)],
        (PieceKind::J, Orientation::S) => seq![(0i32, 0i32), (-1i32, 0i32), (1i32, -1i32), (1i32, 0i32)],
        (PieceKind::J, Orientation::W) => seq![(0i32, 0i32), (0i32, 1i32), (-1i32, -1i32), (0i32, -1i32)],
        (PieceKind::L, Orientation::N) => seq![(0i32, 0i32), (-1i32, 0i32), (1i32, 1i32), (1i32, 0i32)],
        (PieceKind::L, Orientation::E) => seq![(0i32, 0i32), (0i32, 1i32), (1i32, -1i32), (0i32, -1i32)],
        (PieceKind::L, Orientation::S) => seq![(0i32, 0i32), (-1i32, 0i32), (-1i32, -1i32), (1i32, 0i32)],
        (PieceKind::L, Orientation::W) => seq![(0i32, 0i32), (0i32, 1i32), (-1i32, 1i32), (0i32, -1i32)],
        (PieceKind::O, Orientation::N) => seq![(0i32, 0i32), (0i32, 1i32), (1i32, 1i32), (1i32, 0i32)],
        (PieceKind::O, Orientation::E) => seq![(0i32, 0i32), (0i32, -1i32), (1i32, -1i32), (1i32, 0i32)],
        (PieceKind::O, Orientation::S) => seq![(0i32, 0i32), (0i32, -1i32), (-1i32, -1i32), (-1i32, 0i32)],
        (PieceKind::O, Orientation::W) => seq![(0i32, 0i32), (0i32, 1i32), (-1i32, 1i32), (-1i32, 0i32)],
        (PieceKind::S, Orientation::N) => seq![(0i32, 0i32), (1i32, 1i32), (0i32, 1i32), (-1i32, 0i32)],
        (PieceKind::S, Orientation::E) => seq![(0i32, 0i32), (1i32, -1i32), (1i32, 0i32), (0i32, 1i32)],
        (PieceKind::S, Orientation::S) => seq![(0i32, 0i32), (1i32, 0i32), (0i32, -1i32), (-1i32, -1i32)],
        (PieceKind::S, Orientation::W) => seq![(0i32, 0i32), (0i32, -1i32), (-1i32, 0i32), (-1i32, 1i32)],
        (PieceKind::T, Orientation::N) => seq![(0i32, 0i32), (-1i32, 0i32), (0i32, 1i32), (1i32, 0i32)],
        (PieceKind::T, Orientation::E) => seq![(0i32, 0i32), (0i32, 1i32), (1i32, 0i32), (0i32, -1i32)],
        (PieceKind::T, Orientation::S) => seq![(0i32, 0i32), (-1i32, 0i32), (0i32, -1i32), (1i32, 0i32)],
        (PieceKind::T, Orientation::W) => seq![(0i32, 0i32), (0i32, 1i32), (-1i32, 0i32), (0i32, -1i32)],
        (PieceKind::Z, Orientation::N) => seq![(0i32, 0i32), (-1i32, 1i32), (0i32, 1i32), (1i32, 0i32)],
        (PieceKind::Z, Orientation::E) => seq![(0i32, 0i32), (1i32, 1i32), (1i32, 0i32), (0i32, -1i32)],
        (PieceKind::Z, Orientation::S) => seq![(0i32, 0i32), (-1i32, 0i32), (0i32, -1i32), (1i32, -1i32)],
        (PieceKind::Z, Orientation::W) => seq![(0i32, 0i32), (0i32, 1i32), (-1i32, 0i32), (-1i32, -1i32)],
    }
}

/// The shape table: block offsets of each kind in each orientation.
/// The pivot `(0, 0)` is always the first block.
pub fn piece_blocks(kind: PieceKind, orientation: Orientation) -> (r: [Coords; 4])
    ensures
        r@ == block_offsets(kind, orientation),
{
    match (kind, orientation) {
        (PieceKind::I, Orientation::N) => [(0, 0), (-1, 0), (1, 0), (2, 0)],
        (PieceKind::I, Orientation::E) => [(0, 0), (0, -2), (0, -1), (0, 1)],
        (PieceKind::I, Orientation::S) => [(0, 0), (-2, 0), (-1, 0), (1, 0)],
        (PieceKind::I, Orientation::W) => [(0, 0), (0, -1), (0, 1), (0, 2)],
        (PieceKind::J, Orientation::N) => [(0, 0), (-1, 0), (-1, 1), (1, 0)],
        (PieceKind::J, Orientation::E) => [(0, 0), (0, 1), (1, 1), (0, -1)],
        (PieceKind::J, Orientation::S) => [(0, 0), (-1, 0), (1, -1), (1, 0)],
        (PieceKind::J, Orientation::W) => [(0, 0), (0, 1), (-1, -1), (0, -1)],
        (PieceKind::L, Orientation::N) => [(0, 0), (-1, 0), (1, 1), (1, 0)],
        (PieceKind::L, Orientation::E) => [(0, 0), (0, 1), (1, -1), (0, -1)],
        (PieceKind::L, Orientation::S) => [(0, 0), (-1, 0), (-1, -1), (1, 0)],
        (PieceKind::L, Orientation::W) => [(0, 0), (0, 1), (-1, 1), (0, -1)],
        (PieceKind::O, Orientation::N) => [(0, 0), (0, 1), (1, 1), (1, 0)],
        (PieceKind::O, Orientation::E) => [(0, 0), (0, -1), (1, -1), (1, 0)],
        (PieceKind::O, Orientation::S) => [(0, 0), (0, -1), (-1, -1), (-1, 0)],
        (PieceKind::O, Orientation::W) => [(0, 0), (0, 1), (-1, 1), (-1, 0)],
        (PieceKind::S, Orientation::N) => [(0, 0), (1, 1), (0, 1), (-1, 0)],
        (PieceKind::S, Orientation::E) => [(0, 0), (1, -1), (1, 0), (0, 1)],
        (PieceKind::S, Orientation::S) => [(0, 0), (1, 0), (0, -1), (-1, -1)],
        (PieceKind::S, Orientation::W) => [(0, 0), (0, -1), (-1, 0), (-1, 1)],
        (PieceKind::T, Orientation::N) => [(0, 0), (-1, 0), (0, 1), (1, 0)],
        (PieceKind::T, Orientation::E) => [(0, 0), (0, 1), (1, 0), (0, -1)],
        (PieceKind::T, Orientation::S) => [(0, 0), (-1, 0), (0, -1), (1, 0)],
        (PieceKind::T, Orientation::W) => [(0, 0), (0, 1), (-1, 0), (0, -1)],
        (PieceKind::Z, Orientation::N) => [(0, 0), (-1, 1), (0, 1), (1, 0)],
        (PieceKind::Z, Orientation::E) => [(0, 0), (1, 1), (1, 0), (0, -1)],
        (PieceKind::Z, Orientation::S) => [(0, 0), (-1, 0), (0, -1), (1, -1)],
        (PieceKind::Z, Orientation::W) => [(0, 0), (0, 1), (-1, 0), (-1, -1)],
    }
}

/// The pivot is always the first block, and every offset is at most 2 away from it.
pub proof fn lemma_block_offsets_shape(kind: PieceKind, orientation: Orientation)
    ensures
        block_offsets(kind, orientation).len() == 4,
        block_offsets(kind, orientation)[0] == (0i32, 0i32),
        forall|i: int|
            0 <= i < 4 ==> -2 <= #[trigger] block_offsets(kind, orientation)[i].0 <= 2 && -2
                <= block_offsets(kind, orientation)[i].1 <= 2,
{
}

/// The five kick offsets tried, in order, for a piece of kind `piece` facing `orientation`.
pub open spec fn kick_table(piece: PieceKind, orientation: Orientation) -> Seq<Coords> {
    if piece == PieceKind::O {
        let p = match orientation {
            Orientation::N => (0i32, 0i32),
            Orientation::E => (0i32, -1i32),
            Orientation::S => (-1i32, -1i32),
            Orientation::W => (-1i32, 0i32),
        };
        seq![p, p, p, p, p]
    } else {
        match (piece, orientation) {
            (PieceKind::I, Orientation::N) => seq![(0i32, 0i32), (-1i32, 0i32), (2i32, 0i32), (-1i32, 0i32), (2i32, 0i32)],
            (PieceKind::I, Orientation::E) => seq![(-1i32, 0i32), (0i32, 0i32), (0i32, 0i32), (0i32, 1i32), (0i32, -2i32)],
            (PieceKind::I, Orientation::S) => seq![(-1i32, 1i32), (1i32, 1i32), (-2i32, 1i32), (1i32, 0i32), (-2i32, 0i32)],
            (PieceKind::I, Orientation::W) => seq![(0i32, 1i32), (0i32, 1i32), (0i32, 1i32), (0i32, -1i32), (0i32, 2i32)],
            (_, Orientation::N) => seq![(0i32, 0i32), (0i32, 0i32), (0i32, 0i32), (0i32, 0i32), (0i32, 0i32)],
            (_, Orientation::E) => seq![(0i32, 0i32), (1i32, 0i32), (1i32, -1i32), (0i32, 2i32), (1i32, 2i32)],
            (_, Orientation::S) => seq![(0i32, 0i32), (0i32, 0i32), (0i32, 0i32), (0i32, 0i32), (0i32, 0i32)],
            (_, Orientation::W) => seq![(0i32, 0i32), (-1i32, 0i32), (-1i32, -1i32), (0i32, 2i32), (-1i32, 2i32)],
        }
    }
}

/// Offset test `n` of `kick_table`; the O piece has one offset for every test.
pub open spec fn kick_entry(piece: PieceKind, orientation: Orientation, n: int) -> Coords {
    if piece == PieceKind::O {
        kick_table(piece, orientation)[0]
    } else {
        kick_table(piece, orientation)[n]
    }
}

/// The kick offset of test `n` for a rotation of `piece` from `orientation`
/// by `rotate_cw` clockwise quarter turns.
pub open spec fn kick(piece: PieceKind, orientation: Orientation, rotate_cw: int, n: int) -> Coords {
    let (x1, y1) = kick_entry(piece, orientation, n);
    let (x2, y2) = kick_entry(piece, rotated(orientation, rotate_cw), n);
    ((x1 - x2) as i32, (y1 - y2) as i32)
}

/// Kick offset of test `n` (0 to 4) when `piece` turns from `orientation`
/// by `rotate_cw` clockwise quarter turns.
pub fn kick_offset(piece: PieceKind, orientation: Orientation, rotate_cw: i32, n: i32) -> (r: Coords)
    requires
        piece == PieceKind::O || 0 <= n < 5,
    ensures
        r == kick(piece, orientation, rotate_cw as int, n as int),
        -4 <= r.0 <= 4,
        -4 <= r.1 <= 4,
{
    let (x1, y1) = kick_offset_part(piece, orientation, n);
    let (x2, y2) = kick_offset_part(piece, orientation.rotate_cw(rotate_cw), n);

    (x1 - x2, y1 - y2)
}

fn kick_offset_part(piece: PieceKind, orientation: Orientation, n: i32) -> (r: Coords)
    requires
        piece == PieceKind::O || 0 <= n < 5,
    ensures
        r == kick_entry(piece, orientation, n as int),
        -2 <= r.0 <= 2,
        -2 <= r.1 <= 2,
{
    if piece == PieceKind::O {
        return match orientation {
            Orientation::N => (0, 0),
            Orientation::E => (0, -1),
            Orientation::S => (-1, -1),
            Orientation::W => (-1, 0),
        };
    }

    let offsets: [Coords; 5] = match (piece, orientation) {
        (PieceKind::I, Orientation::N) => [(0, 0), (-1, 0), (2, 0), (-1, 0), (2, 0)],
        (PieceKind::I, Orientation::E) => [(-1, 0), (0, 0), (0, 0), (0, 1), (0, -2)],
        (PieceKind::I, Orientation::S) => [(-1, 1), (1, 1), (-2, 1), (1, 0), (-2, 0)],
        (PieceKind::I, Orientation::W) => [(0, 1), (0, 1), (0, 1), (0, -1), (0, 2)],
        (_, Orientation::N) => [(0, 0), (0, 0), (0, 0), (0, 0), (0, 0)],
        (_, Orientation::E) => [(0, 0), (1, 0), (1, -1), (0, 2), (1, 2)],
        (_, Orientation::S) => [(0, 0), (0, 0), (0, 0), (0, 0), (0, 0)],
        (_, Orientation::W) => [(0, 0), (-1, 0), (-1, -1), (0, 2), (-1, 2)],
    };

    offsets[n as usize]
}


/// A rotation by no quarter turn needs no kick: every test offset is `(0, 0)`.
pub proof fn lemma_kick_without_rotation(piece: PieceKind, orientation: Orientation, n: int)
    requires
        0 <= n < 5,
    ensures
        kick(piece, orientation, 0, n) == (0i32, 0i32),
{
}

/// The O piece gets the same kick from each of the five tests.
pub proof fn lemma_kick_o_same_for_all_tests(orientation: Orientation, rotate_cw: int, n: int)
    requires
        0 <= n < 5,
    ensures
        kick(PieceKind::O, orientation, rotate_cw, n) == kick(PieceKind::O, orientation, rotate_cw, 0),
{
}

/// Every kick moves the piece at most four cells in each direction.
pub proof fn lemma_kick_bounded(piece: PieceKind, orientation: Orientation, rotate_cw: int, n: int)
    requires
        0 <= n < 5,
    ensures
        -4 <= kick(piece, orientation, rotate_cw, n).0 <= 4,
        -4 <= kick(piece, orientation, rotate_cw, n).1 <= 4,
{
}

/// The standard SRS wall-kick tests for the J, L, S, T and Z pieces turning a quarter turn
/// from `from` to `to` (x to the right, y up), in the order they are tried.
pub open spec fn srs_jlstz_kicks(from: Orientation, to: Orientation) -> Seq<(int, int)> {
    match (from, to) {
        (Orientation::N, Orientation::E) => seq![(0, 0), (-1, 0), (-1, 1), (0, -2), (-1, -2)],
        (Orientation::E, Orientation::N) => seq![(0, 0), (1, 0), (1, -1), (0, 2), (1, 2)],
        (Orientation::E, Orientation::S) => seq![(0, 0), (1, 0), (1, -1), (0, 2), (1, 2)],
        (Orientation::S, Orientation::E) => seq![(0, 0), (-1, 0), (-1, 1), (0, -2), (-1, -2)],
        (Orientation::S, Orientation::W) => seq![(0, 0), (1, 0), (1, 1), (0, -2), (1, -2)],
        (Orientation::W, Orientation::S) => seq![(0, 0), (-1, 0), (-1, -1), (0, 2), (-1, 2)],
        (Orientation::W, Orientation::N) => seq![(0, 0), (-1, 0), (-1, -1), (0, 2), (-1, 2)],
        (Orientation::N, Orientation::W) => seq![(0, 0), (1, 0), (1, 1), (0, -2), (1, -2)],
        _ => seq![(0, 0), (0, 0), (0, 0), (0, 0), (0, 0)],
    }
}

/// The standard SRS wall-kick tests for the I piece turning a quarter turn from `from` to
/// `to` (x to the right, y up), in the order they are tried.
pub open spec fn srs_i_kicks(from: Orientation, to: Orientation) -> Seq<(int, int)> {
    match (from, to) {
        (Orientation::N, Orientation::E) => seq![(0, 0), (-2, 0), (1, 0), (-2, -1), (1, 2)],
        (Orientation::E, Orientation::N) => seq![(0, 0), (2, 0), (-1, 0), (2, 1), (-1, -2)],
        (Orientation::E, Orientation::S) => seq![(0, 0), (-1, 0), (2, 0), (-1, 2), (2, -1)],
        (Orientation::S, Orientation::E) => seq![(0, 0), (1, 0), (-2, 0), (1, -2), (-2, 1)],
        (Orientation::S, Orientation::W) => seq![(0, 0), (2, 0), (-1, 0), (2, 1), (-1, -2)],
        (Orientation::W, Orientation::S) => seq![(0, 0), (-2, 0), (1, 0), (-2, -1), (1, 2)],
        (Orientation::W, Orientation::N) => seq![(0, 0), (1, 0), (-2, 0), (1, -2), (-2, 1)],
        (Orientation::N, Orientation::W) => seq![(0, 0), (-1, 0), (2, 0), (-1, 2), (2, -1)],
        _ => seq![(0, 0), (0, 0), (0, 0), (0, 0), (0, 0)],
    }
}

/// A J, L, S, T or Z piece turning a quarter turn either way tries exactly the standard SRS
/// wall kicks, in order.
pub proof fn lemma_kicks_jlstz_are_srs(piece: PieceKind, orientation: Orientation, rotate_cw: int, n: int)
    requires
        piece != PieceKind::I && piece != PieceKind::O,
        rotate_cw == 1 || rotate_cw == 3,
        0 <= n < 5,
    ensures
        kick(piece, orientation, rotate_cw, n).0 == srs_jlstz_kicks(orientation, rotated(orientation, rotate_cw))[n].0,
        kick(piece, orientation, rotate_cw, n).1 == srs_jlstz_kicks(orientation, rotated(orientation, rotate_cw))[n].1,
{
    reveal_with_fuel(rotated, 1);
}

/// An I piece turning a quarter turn either way tries the standard SRS wall kicks, in
/// order, each shifted by the same step that moves its pivot block to the turned shape's
/// pivot block.
pub proof fn lemma_kicks_i_are_srs(orientation: Orientation, rotate_cw: int, n: int)
    requires
        rotate_cw == 1 || rotate_cw == 3,
        0 <= n < 5,
    ensures
        kick(PieceKind::I, orientation, rotate_cw, n).0 - kick(PieceKind::I, orientation, rotate_cw, 0).0
            == srs_i_kicks(orientation, rotated(orientation, rotate_cw))[n].0,
        kick(PieceKind::I, orientation, rotate_cw, n).1 - kick(PieceKind::I, orientation, rotate_cw, 0).1
            == srs_i_kicks(orientation, rotated(orientation, rotate_cw))[n].1,
{
}

/// The turn to the left out of N (and the third test of it) for a T piece, as the SRS
/// table has it: one column right and one row up.
pub proof fn lemma_t_left_from_n_kicks()
    ensures
        kick(PieceKind::T, Orientation::N, 3, 0) == (0i32, 0i32),
        kick(PieceKind::T, Orientation::N, 3, 1) == (1i32, 0i32),
        kick(PieceKind::T, Orientation::N, 3, 2) == (1i32, 1i32),
        kick(PieceKind::T, Orientation::N, 3, 3) == (0i32, -2i32),
        kick(PieceKind::T, Orientation::N, 3, 4) == (1i32, -2i32),
{
}

/// Whether a piece of kind `kind` facing `orientation` covers the cell `(x, y)` relative to
/// its pivot.
pub open spec fn covers_cell(kind: PieceKind, orientation: Orientation, x: int, y: int) -> bool {
    let b = block_offsets(kind, orientation);
    ||| b[0].0 == x && b[0].1 == y
    ||| b[1].0 == x && b[1].1 == y
    ||| b[2].0 == x && b[2].1 == y
    ||| b[3].0 == x && b[3].1 == y
}

/// The seven tetrominoes facing N, cell by cell (x to the right, y up, pivot at `(0, 0)`):
/// I is a row of four; J and L are a row of three with a block above its left or right
/// end; O is a 2x2 square; S and Z are two offset pairs; T is a row of three with a block
/// above its middle.
pub proof fn lemma_shapes_facing_north(x: int, y: int)
    ensures
        covers_cell(PieceKind::I, Orientation::N, x, y) <==> (y == 0 && -1 <= x <= 2),
        covers_cell(PieceKind::J, Orientation::N, x, y) <==> ((y == 0 && -1 <= x <= 1) || (x == -1 && y == 1)),
        covers_cell(PieceKind::L, Orientation::N, x, y) <==> ((y == 0 && -1 <= x <= 1) || (x == 1 && y == 1)),
        covers_cell(PieceKind::O, Orientation::N, x, y) <==> (0 <= x <= 1 && 0 <= y <= 1),
        covers_cell(PieceKind::S, Orientation::N, x, y) <==> ((y == 0 && -1 <= x <= 0) || (y == 1 && 0 <= x <= 1)),
        covers_cell(PieceKind::T, Orientation::N, x, y) <==> ((y == 0 && -1 <= x <= 1) || (x == 0 && y == 1)),
        covers_cell(PieceKind::Z, Orientation::N, x, y) <==> ((y == 0 && 0 <= x <= 1) || (y == 1 && -1 <= x <= 0)),
{
}

/// Each orientation is the previous one turned a quarter turn clockwise about the pivot
/// (the O piece about the centre of its square, which moves the pivot): a cell `(x, y)`
/// becomes `(y, -x)`.
pub proof fn lemma_shapes_turn_clockwise(kind: PieceKind, orientation: Orientation, x: int, y: int)
    requires
        kind != PieceKind::O,
    ensures
        covers_cell(kind, orientation, x, y) <==> covers_cell(kind, rotated(orientation, 1), y, -x),
{
}

/// J and L are mirror images of each other, and so are S and Z, facing N and facing S.
pub proof fn lemma_shapes_mirror(x: int, y: int)
    ensures
        covers_cell(PieceKind::J, Orientation::N, x, y) <==> covers_cell(PieceKind::L, Orientation::N, -x, y),
        covers_cell(PieceKind::J, Orientation::S, x, y) <==> covers_cell(PieceKind::L, Orientation::S, -x, y),
        covers_cell(PieceKind::S, Orientation::N, x, y) <==> covers_cell(PieceKind::Z, Orientation::N, -x, y),
        covers_cell(PieceKind::S, Orientation::S, x, y) <==> covers_cell(PieceKind::Z, Orientation::S, -x, y),
{
}

/// The O piece keeps its square in place when it turns: the turned square, with its pivot
/// moved by the kick, covers the same cells.
pub proof fn lemma_o_turns_in_place(orientation: Orientation, rotate_cw: int, x: int, y: int)
    requires
        1 <= rotate_cw <= 3,
    ensures
        covers_cell(PieceKind::O, orientation, x, y) <==> covers_cell(
            PieceKind::O,
            rotated(orientation, rotate_cw),
            x - kick(PieceKind::O, orientation, rotate_cw, 0).0,
            y - kick(PieceKind::O, orientation, rotate_cw, 0).1,
        ),
{
}

/// The I piece turns about the centre of its 4x4 box: its first kick test moves the pivot
/// one column right going N to E, one row down going E to S, one column left going S to W
/// and one row up going W to N (and back the opposite way on the reverse turns).
pub proof fn lemma_i_turns_about_its_box()
    ensures
        kick(PieceKind::I, Orientation::N, 1, 0) == (1i32, 0i32),
        kick(PieceKind::I, Orientation::E, 1, 0) == (0i32, -1i32),
        kick(PieceKind::I, Orientation::S, 1, 0) == (-1i32, 0i32),
        kick(PieceKind::I, Orientation::W, 1, 0) == (0i32, 1i32),
        kick(PieceKind::I, Orientation::E, 3, 0) == (-1i32, 0i32),
        kick(PieceKind::I, Orientation::S, 3, 0) == (0i32, 1i32),
        kick(PieceKind::I, Orientation::W, 3, 0) == (1i32, 0i32),
        kick(PieceKind::I, Orientation::N, 3, 0) == (0i32, -1i32),
{
}

} // verus!
