//! A piece in play: kind, orientation, pivot position and the blocks it covers.
use vstd::prelude::*;
use crate::tables::{block_offsets, piece_blocks};
use crate::types::{rotated, Coords, Orientation, PieceKind};
use crate::{GRID_HEIGHT, PILE_WIDTH};

verus! {

/// A piece: its pivot `(x, y)` and the four blocks it covers.
#[derive(Debug, Clone, Copy)]
pub struct Piece {
    pub kind: PieceKind,
    pub orientation: Orientation,
    pub x: i32,
    pub y: i32,
    pub blocks: [Coords; 4],
}

impl PartialEq for Piece {
    fn eq(&self, other: &Piece) -> (r: bool) {
        let r = self.kind == other.kind && self.orientation == other.orientation
            && self.x == other.x && self.y == other.y
            && self.blocks[0].0 == other.blocks[0].0 && self.blocks[0].1 == other.blocks[0].1
            && self.blocks[1].0 == other.blocks[1].0 && self.blocks[1].1 == other.blocks[1].1
            && self.blocks[2].0 == other.blocks[2].0 && self.blocks[2].1 == other.blocks[2].1
            && self.blocks[3].0 == other.blocks[3].0 && self.blocks[3].1 == other.blocks[3].1;
        proof {
            if r {
                assert(self.blocks =~= other.blocks);
            }
        }
        r
    }
}

impl Eq for Piece {}

impl vstd::std_specs::cmp::PartialEqSpecImpl for Piece {
    open spec fn obeys_eq_spec() -> bool {
        true
    }

    open spec fn eq_spec(&self, other: &Piece) -> bool {
        *self == *other
    }
}

/// Block `i` of a piece of kind `kind` facing `o` with its pivot at `(x, y)`.
pub open spec fn placed_block(kind: PieceKind, o: Orientation, x: int, y: int, i: int) -> (int, int) {
    (x + block_offsets(kind, o)[i].0, y + block_offsets(kind, o)[i].1)
}

/// `blocks` are exactly the blocks of a piece of kind `kind` facing `o` at `(x, y)`.
pub open spec fn blocks_placed(blocks: [Coords; 4], kind: PieceKind, o: Orientation, x: int, y: int) -> bool {
    forall|i: int| 0 <= i < 4 ==> (blocks[i].0 as int, blocks[i].1 as int) == #[trigger] placed_block(kind, o, x, y, i)
}

/// A pivot coordinate whose blocks (at most 2 away) stay within `i32`.
pub open spec fn coord_ok(v: int) -> bool {
    i32::MIN + 2 <= v <= i32::MAX - 2
}

/// The smallest row among four blocks.
pub open spec fn lowest_of(b: [Coords; 4]) -> int {
    let m01 = if b[0].1 <= b[1].1 { b[0].1 } else { b[1].1 };
    let m23 = if b[2].1 <= b[3].1 { b[2].1 } else { b[3].1 };
    if m01 <= m23 { m01 as int } else { m23 as int }
}

impl Piece {
    /// The blocks agree with kind, orientation and pivot, and the pivot is far from the limits.
    pub open spec fn wf(&self) -> bool {
        &&& coord_ok(self.x as int)
        &&& coord_ok(self.y as int)
        &&& blocks_placed(self.blocks, self.kind, self.orientation, self.x as int, self.y as int)
    }

    /// The lowest row covered by the piece.
    pub open spec fn low(&self) -> int {
        lowest_of(self.blocks)
    }

    /// Same kind, with the pivot moved by `(dx, dy)` and turned by `rot` quarter turns.
    pub open spec fn moved(&self, other: Piece, dx: int, dy: int, rot: int) -> bool {
        &&& other.kind == self.kind
        &&& other.orientation == rotated(self.orientation, rot)
        &&& other.x == self.x + dx
        &&& other.y == self.y + dy
        &&& other.wf()
    }

    /// A new piece of the given kind, facing north, with its pivot at the spawn point.
    pub fn spawn(kind: PieceKind) -> (r: Piece)
        ensures
            r.kind == kind,
            r.orientation == Orientation::N,
            r.x == PILE_WIDTH as i32 / 2 - 1,
            r.y == GRID_HEIGHT + 2,
            r.wf(),
    {
        let mut result = Piece {
            kind,
            orientation: Orientation::N,
            x: PILE_WIDTH as i32 / 2 - 1,
            y: GRID_HEIGHT + 2,
            blocks: [(0, 0); 4],
        };

        result.update_blocks();

        result
    }

    /// Recomputes the blocks from kind, orientation and pivot.
    pub fn update_blocks(&mut self)
        requires
            coord_ok(old(self).x as int),
            coord_ok(old(self).y as int),
        ensures
            final(self).kind == old(self).kind,
            final(self).orientation == old(self).orientation,
            final(self).x == old(self).x,
            final(self).y == old(self).y,
            final(self).wf(),
    {
        let offsets = piece_blocks(self.kind, self.orientation);
        proof {
            assert(offsets@[0] == offsets[0]);
        }
        let b0 = (self.x + offsets[0].0, self.y + offsets[0].1);
        let b1 = (self.x + offsets[1].0, self.y + offsets[1].1);
        let b2 = (self.x + offsets[2].0, self.y + offsets[2].1);
        let b3 = (self.x + offsets[3].0, self.y + offsets[3].1);
        self.blocks = [b0, b1, b2, b3];
    }

    /// A copy moved by `(dx, dy)` and turned clockwise `rotate_cw` times.
    pub fn changed_by(&self, dx: i32, dy: i32, rotate_cw: i32) -> (r: Piece)
        requires
            coord_ok(self.x + dx),
            coord_ok(self.y + dy),
        ensures
            self.moved(r, dx as int, dy as int, rotate_cw as int),
    {
        let mut branched = *self;

        branched.x = branched.x + dx;
        branched.y = branched.y + dy;
        branched.orientation = branched.orientation.rotate_cw(rotate_cw);

        branched.update_blocks();

        branched
    }

    /// The lowest row covered by the piece.
    pub fn lowest_y(&self) -> (r: i32)
        ensures
            r == self.low(),
            exists|i: int| 0 <= i < 4 && r == #[trigger] self.blocks[i].1,
            forall|i: int| 0 <= i < 4 ==> r <= #[trigger] self.blocks[i].1,
    {
        let m01 = if self.blocks[0].1 <= self.blocks[1].1 { self.blocks[0].1 } else { self.blocks[1].1 };
        let m23 = if self.blocks[2].1 <= self.blocks[3].1 { self.blocks[2].1 } else { self.blocks[3].1 };
        let r = if m01 <= m23 { m01 } else { m23 };
        proof {
            if r == self.blocks[0].1 { assert(0 <= 0int < 4 && r == self.blocks[0].1); }
            else if r == self.blocks[1].1 { assert(0 <= 1int < 4 && r == self.blocks[1].1); }
            else if r == self.blocks[2].1 { assert(0 <= 2int < 4 && r == self.blocks[2].1); }
            else { assert(0 <= 3int < 4 && r == self.blocks[3].1); }
        }
        r
    }
}

/// The lowest offset row of a shape.
pub open spec fn lowest_offset(kind: PieceKind, o: Orientation) -> int {
    let b = block_offsets(kind, o);
    let m01 = if b[0].1 <= b[1].1 { b[0].1 } else { b[1].1 };
    let m23 = if b[2].1 <= b[3].1 { b[2].1 } else { b[3].1 };
    if m01 <= m23 { m01 as int } else { m23 as int }
}

/// The lowest row of a well-formed piece is its pivot row plus the lowest offset of its
/// shape, which lies between -2 and 0.
pub proof fn lemma_low(p: Piece)
    requires
        p.wf(),
    ensures
        p.low() == p.y + lowest_offset(p.kind, p.orientation),
        -2 <= lowest_offset(p.kind, p.orientation) <= 0,
        p.y - 2 <= p.low() <= p.y,
{
    crate::tables::lemma_block_offsets_shape(p.kind, p.orientation);
    assert(placed_block(p.kind, p.orientation, p.x as int, p.y as int, 0) == (p.blocks[0].0 as int, p.blocks[0].1 as int));
    assert(placed_block(p.kind, p.orientation, p.x as int, p.y as int, 1) == (p.blocks[1].0 as int, p.blocks[1].1 as int));
    assert(placed_block(p.kind, p.orientation, p.x as int, p.y as int, 2) == (p.blocks[2].0 as int, p.blocks[2].1 as int));
    assert(placed_block(p.kind, p.orientation, p.x as int, p.y as int, 3) == (p.blocks[3].0 as int, p.blocks[3].1 as int));
}

/// A piece is determined by its kind, orientation and pivot: two well-formed pieces
/// that agree on those are equal.
pub proof fn lemma_piece_determined(q: Piece, r: Piece)
    requires
        q.wf(),
        r.wf(),
        q.kind == r.kind,
        q.orientation == r.orientation,
        q.x == r.x,
        q.y == r.y,
    ensures
        q == r,
{
    assert forall|i: int| 0 <= i < 4 implies q.blocks[i] == r.blocks[i] by {
        assert(placed_block(q.kind, q.orientation, q.x as int, q.y as int, i) == placed_block(
            r.kind,
            r.orientation,
            r.x as int,
            r.y as int,
            i,
        ));
    }
    assert(q.blocks =~= r.blocks);
}

/// Moving a well-formed piece by nothing gives the same piece.
pub proof fn lemma_move_by_nothing(p: Piece, q: Piece)
    requires
        p.wf(),
        p.moved(q, 0, 0, 0),
    ensures
        q == p,
{
    lemma_piece_determined(p, q);
}

/// Two moves in a row are one move by the summed offsets and turns.
pub proof fn lemma_moves_compose(p: Piece, q: Piece, r: Piece, dx1: int, dy1: int, rot1: int, dx2: int, dy2: int, rot2: int)
    requires
        p.moved(q, dx1, dy1, rot1),
        q.moved(r, dx2, dy2, rot2),
        0 <= rot1,
        0 <= rot2,
    ensures
        p.moved(r, dx1 + dx2, dy1 + dy2, rot1 + rot2),
{
    crate::types::lemma_rotated_compose(p.orientation, rot1, rot2);
}

} // verus!
