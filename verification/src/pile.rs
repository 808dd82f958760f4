//! The pile of locked blocks: collision tests, line clears and garbage.
use vstd::prelude::*;
use crate::piece::Piece;
use crate::types::{Cell, Coords};
use crate::{PILE_HEIGHT, PILE_WIDTH};

verus! {

/// One row of the pile, from column 0 to column 9.
pub type Row = [Option<Cell>; PILE_WIDTH];

/// Every cell of the row is occupied.
pub open spec fn row_full(r: Row) -> bool {
    forall|x: int| 0 <= x < PILE_WIDTH ==> (#[trigger] r[x]).is_some()
}

/// No cell of the row is occupied.
pub open spec fn row_empty(r: Row) -> bool {
    forall|x: int| 0 <= x < PILE_WIDTH ==> (#[trigger] r[x]).is_none()
}

/// Number of full rows.
pub open spec fn count_full(rows: Seq<Row>) -> nat
    decreases rows.len(),
{
    if rows.len() == 0 {
        0
    } else {
        (if row_full(rows[0]) { 1nat } else { 0nat }) + count_full(rows.drop_first())
    }
}

/// The rows that are not full, bottom to top, in their original order.
pub open spec fn without_full(rows: Seq<Row>) -> Seq<Row>
    decreases rows.len(),
{
    if rows.len() == 0 {
        Seq::empty()
    } else {
        (if row_full(rows[0]) { Seq::empty() } else { seq![rows[0]] }) + without_full(rows.drop_first())
    }
}

impl Default for Pile {
    /// An empty pile.
    fn default() -> (r: Pile)
        ensures
            forall|x: int, y: int| in_bounds(x, y) ==> #[trigger] r.cell(x, y).is_none(),
    {
        Pile::new()
    }
}

/// `p1` is `p0` with its full rows removed: the other rows move down in order and empty
/// rows fill the top.
pub open spec fn cleared(p0: Pile, p1: Pile) -> bool {
    let kept = without_full(p0.0@);
    &&& kept.len() <= PILE_HEIGHT
    &&& forall|i: int| 0 <= i < kept.len() ==> p1.0[i] == kept[i]
    &&& forall|i: int| kept.len() <= i < PILE_HEIGHT ==> row_empty(#[trigger] p1.0[i])
}

/// Row `r` holds garbage in every column but `c`, which is empty.
pub open spec fn holed_at(r: Row, c: int) -> bool {
    forall|x: int|
        0 <= x < PILE_WIDTH ==> #[trigger] r[x] == (if x == c {
            None
        } else {
            Some(Cell::Garbage)
        })
}

/// A garbage row: garbage in every column but one, which is empty.
pub open spec fn garbage_row(r: Row) -> bool {
    exists|c: int| 0 <= c < PILE_WIDTH && #[trigger] holed_at(r, c)
}

/// The number of rows in the garbage batches.
pub open spec fn garbage_total(batches: Seq<i32>) -> int
    decreases batches.len(),
{
    if batches.len() == 0 {
        0
    } else {
        garbage_total(batches.drop_last()) + batches.last()
    }
}

/// The rows of the batches queued after batch `j`, which end up below its rows.
pub open spec fn rows_below_batch(batches: Seq<i32>, j: int) -> int {
    garbage_total(batches.skip(j + 1))
}

/// The rows of each garbage batch, which lie above those of the batches queued after it,
/// are alike: they share their hole.
pub open spec fn batches_alike(p: Pile, batches: Seq<i32>) -> bool {
    forall|j: int, y1: int, y2: int, x: int|
        #![trigger p.0[y1][x], p.0[y2][x], rows_below_batch(batches, j)]
        0 <= j < batches.len() && rows_below_batch(batches, j) <= y1 < rows_below_batch(batches, j) + batches[j]
            && rows_below_batch(batches, j) <= y2 < rows_below_batch(batches, j) + batches[j] && y1 < PILE_HEIGHT
            && y2 < PILE_HEIGHT && 0 <= x < PILE_WIDTH ==> p.0[y1][x] == p.0[y2][x]
}

/// Batches of no negative size have no negative total.
pub proof fn lemma_garbage_total_nonneg(s: Seq<i32>)
    requires
        forall|i: int| 0 <= i < s.len() ==> #[trigger] s[i] >= 0,
    ensures
        garbage_total(s) >= 0,
    decreases s.len(),
{
    if s.len() > 0 {
        assert forall|i: int| 0 <= i < s.drop_last().len() implies #[trigger] s.drop_last()[i] >= 0 by {
            assert(s.drop_last()[i] == s[i]);
        }
        lemma_garbage_total_nonneg(s.drop_last());
    }
}

/// Appending a batch adds its rows to the total.
pub proof fn lemma_garbage_total_push(s: Seq<i32>, v: i32)
    ensures
        garbage_total(s.push(v)) == garbage_total(s) + v,
{
    assert(s.push(v).drop_last() =~= s);
}

/// `p1` is `p0` after `total` garbage rows were pushed in at the bottom: every row moved
/// up by `total` (rows pushed past the top are gone) and the rows below are garbage rows.
pub open spec fn garbage_pushed(p0: Pile, p1: Pile, total: int) -> bool {
    &&& forall|y: int| total <= y < PILE_HEIGHT ==> #[trigger] p1.0[y] == p0.0[y - total]
    &&& forall|y: int| 0 <= y < total && y < PILE_HEIGHT ==> garbage_row(#[trigger] p1.0[y])
}

/// `(x, y)` lies inside the pile.
pub open spec fn in_bounds(x: int, y: int) -> bool {
    0 <= x < PILE_WIDTH && 0 <= y < PILE_HEIGHT
}

/// The grid of locked cells; row 0 is the bottom row.
#[derive(Debug, Clone, Copy)]
pub struct Pile(pub [Row; PILE_HEIGHT]);

impl Pile {
    /// The cell at column `x`, row `y`.
    pub open spec fn cell(&self, x: int, y: int) -> Option<Cell> {
        self.0[y][x]
    }

    /// No row of the pile is full.
    pub open spec fn clean(&self) -> bool {
        forall|y: int| 0 <= y < PILE_HEIGHT ==> !row_full(#[trigger] self.0[y])
    }

    /// `(x, y)` is outside the pile or holds a block.
    pub open spec fn blocked(&self, x: int, y: int) -> bool {
        !in_bounds(x, y) || self.cell(x, y).is_some()
    }

    /// Number of occupied or outside corners diagonally next to `(x, y)`.
    pub open spec fn corner_count(&self, x: int, y: int) -> int {
        (if self.blocked(x + 1, y + 1) { 1int } else { 0int })
            + (if self.blocked(x + 1, y - 1) { 1int } else { 0int })
            + (if self.blocked(x - 1, y + 1) { 1int } else { 0int })
            + (if self.blocked(x - 1, y - 1) { 1int } else { 0int })
    }

    /// An empty pile.
    pub fn new() -> (r: Pile)
        ensures
            forall|x: int, y: int| in_bounds(x, y) ==> #[trigger] r.cell(x, y).is_none(),
    {
        let row: Row = [None; PILE_WIDTH];
        let r = Pile([row; PILE_HEIGHT]);
        assert forall|x: int, y: int| in_bounds(x, y) implies #[trigger] r.cell(x, y).is_none() by {
            assert(r.0[y] == row);
        }
        r
    }

    /// Whether every cell of row `row` is occupied.
    pub fn is_row_full(&self, row: usize) -> (r: bool)
        requires
            row < PILE_HEIGHT,
        ensures
            r == row_full(self.0[row as int]),
    {
        let mut x: usize = 0;
        while x < PILE_WIDTH
            invariant
                x <= PILE_WIDTH,
                row < PILE_HEIGHT,
                forall|i: int| 0 <= i < x ==> (#[trigger] self.0[row as int][i]).is_some(),
            decreases PILE_WIDTH - x,
        {
            if self.0[row][x].is_none() {
                return false;
            }
            x = x + 1;
        }
        true
    }

    /// The number of full rows.
    pub fn lines_to_clear(&self) -> (r: i32)
        ensures
            r == count_full(self.0@),
            0 <= r <= PILE_HEIGHT,
    {
        let mut count: i32 = 0;
        let mut k: usize = PILE_HEIGHT;
        while k > 0
            invariant
                k <= PILE_HEIGHT,
                count == count_full(self.0@.subrange(k as int, PILE_HEIGHT as int)),
                count <= PILE_HEIGHT - k,
            decreases k,
        {
            let row = k - 1;
            assert(self.0@.subrange(row as int, PILE_HEIGHT as int).drop_first()
                =~= self.0@.subrange(k as int, PILE_HEIGHT as int));
            if self.is_row_full(row) {
                count = count + 1;
            }
            k = row;
        }
        assert(self.0@.subrange(0, PILE_HEIGHT as int) =~= self.0@);
        count
    }

    /// Removes every full row; the rows above a cleared row move down and empty rows
    /// fill the top.
    pub fn line_clear(&mut self)
        ensures
            cleared(*old(self), *final(self)),
            final(self).clean(),
            without_full(old(self).0@).len() == PILE_HEIGHT - count_full(old(self).0@),
            count_full(final(self).0@) == 0,
    {
        let ghost old_rows = self.0@;
        let mut k: usize = PILE_HEIGHT;
        proof {
            lemma_without_full_len(old_rows.subrange(PILE_HEIGHT as int, PILE_HEIGHT as int));
        }
        while k > 0
            invariant
                k <= PILE_HEIGHT,
                old_rows.len() == PILE_HEIGHT,
                forall|i: int| 0 <= i < k ==> self.0[i] == old_rows[i],
                ({
                    let kept = without_full(old_rows.subrange(k as int, PILE_HEIGHT as int));
                    &&& kept.len() <= PILE_HEIGHT - k
                    &&& forall|i: int| 0 <= i < kept.len() ==> self.0[k + i] == kept[i]
                    &&& forall|i: int| k + kept.len() <= i < PILE_HEIGHT ==> row_empty(#[trigger] self.0[i])
                }),
            decreases k,
        {
            let row = k - 1;
            let ghost tail = old_rows.subrange(k as int, PILE_HEIGHT as int);
            let ghost whole = old_rows.subrange(row as int, PILE_HEIGHT as int);
            assert(whole.drop_first() =~= tail);
            assert(whole[0] == old_rows[row as int]);
            proof {
                lemma_without_full_len(tail);
            }
            if self.is_row_full(row) {
                let ghost before = self.0;
                let mut ripple: usize = row;
                while ripple < PILE_HEIGHT - 1
                    invariant
                        row <= ripple <= PILE_HEIGHT - 1,
                        forall|i: int| 0 <= i < row ==> self.0[i] == before[i],
                        forall|i: int| row <= i < ripple ==> self.0[i] == before[i + 1],
                        forall|i: int| ripple <= i < PILE_HEIGHT ==> self.0[i] == before[i],
                    decreases PILE_HEIGHT - 1 - ripple,
                {
                    self.0[ripple] = self.0[ripple + 1];
                    ripple = ripple + 1;
                }
                self.0[PILE_HEIGHT - 1] = [None; PILE_WIDTH];
                assert(without_full(whole) =~= without_full(tail));
            } else {
                assert(without_full(whole) =~= seq![old_rows[row as int]] + without_full(tail));
            }
            k = row;
        }
        assert(old_rows.subrange(0, PILE_HEIGHT as int) =~= old_rows);
        proof {
            lemma_without_full_not_full(old_rows);
            let kept = without_full(old_rows);
            assert forall|i: int| 0 <= i < PILE_HEIGHT implies !row_full(#[trigger] self.0[i]) by {
                if i < kept.len() {
                    assert(self.0[i] == kept[i]);
                } else {
                    assert(row_empty(self.0[i]));
                    assert(self.0[i][0].is_none());
                }
            }
            lemma_kept_and_cleared(old_rows);
            lemma_count_full_none(self.0@);
        }
    }

    /// Writes the blocks of `g` into the pile as cells of its kind.
    pub fn write_piece(&mut self, g: &Piece)
        requires
            forall|i: int| 0 <= i < 4 ==> in_bounds(#[trigger] g.blocks[i].0 as int, g.blocks[i].1 as int),
        ensures
            written(*final(self), *old(self), *g),
    {
        let ghost pre = *self;
        let mut i: usize = 0;
        while i < 4
            invariant
                i <= 4,
                forall|j: int| 0 <= j < 4 ==> in_bounds(#[trigger] g.blocks[j].0 as int, g.blocks[j].1 as int),
                pre == *old(self),
                forall|x: int, y: int|
                    in_bounds(x, y) ==> #[trigger] self.cell(x, y) == (if covers_upto(*g, x, y, i as int) {
                        Some(Cell::PieceKind(g.kind))
                    } else {
                        pre.cell(x, y)
                    }),
            decreases 4 - i,
        {
            let (x, y) = g.blocks[i];
            assert(in_bounds(g.blocks[i as int].0 as int, g.blocks[i as int].1 as int));
            let ghost before = *self;
            self.0[y as usize][x as usize] = Some(Cell::PieceKind(g.kind));
            proof {
                assert forall|cx: int, cy: int| in_bounds(cx, cy) implies #[trigger] self.cell(cx, cy) == (
                if covers_upto(*g, cx, cy, i + 1) {
                    Some(Cell::PieceKind(g.kind))
                } else {
                    pre.cell(cx, cy)
                }) by {
                    if cx == x && cy == y {
                        assert(covers_upto(*g, cx, cy, i + 1));
                    } else {
                        assert(self.cell(cx, cy) == before.cell(cx, cy));
                        if covers_upto(*g, cx, cy, i + 1) {
                            let j = choose|j: int| 0 <= j < i + 1 && g.blocks[j].0 == cx && g.blocks[j].1 == cy;
                            assert(j < i);
                            assert(covers_upto(*g, cx, cy, i as int));
                        }
                    }
                }
            }
            i = i + 1;
        }
    }

    /// Whether `(x, y)` lies outside the pile.
    pub fn out_of_bounds(&self, x: i32, y: i32) -> (r: bool)
        ensures
            r == !in_bounds(x as int, y as int),
    {
        x < 0 || x >= PILE_WIDTH as i32 || y < 0 || y >= PILE_HEIGHT as i32
    }

    /// Whether the cell at `(x, y)` is occupied.
    pub fn has_block(&self, x: i32, y: i32) -> (r: bool)
        requires
            in_bounds(x as int, y as int),
        ensures
            r == self.cell(x as int, y as int).is_some(),
    {
        self.0[y as usize][x as usize].is_some()
    }

    /// Whether any of `blocks` is outside the pile or on an occupied cell.
    pub fn check_collision(&self, blocks: &[Coords]) -> (r: bool)
        ensures
            r == exists|i: int| 0 <= i < blocks@.len() && self.blocked(blocks@[i].0 as int, blocks@[i].1 as int),
    {
        let mut i: usize = 0;
        while i < blocks.len()
            invariant
                i <= blocks@.len(),
                forall|j: int| 0 <= j < i ==> !self.blocked(blocks@[j].0 as int, blocks@[j].1 as int),
            decreases blocks@.len() - i,
        {
            let (x, y) = blocks[i];
            if self.out_of_bounds(x, y) || self.has_block(x, y) {
                assert(self.blocked(blocks@[i as int].0 as int, blocks@[i as int].1 as int));
                return true;
            }
            i = i + 1;
        }
        false
    }

    /// Whether at least three of the four corners diagonally next to `(x, y)` are
    /// occupied or outside the pile.
    pub fn check_tspin(&self, x: i32, y: i32) -> (r: bool)
        requires
            i32::MIN < x < i32::MAX,
            i32::MIN < y < i32::MAX,
        ensures
            r == (self.corner_count(x as int, y as int) >= 3),
    {
        let offsets: [Coords; 4] = [(x + 1, y + 1), (x + 1, y - 1), (x - 1, y + 1), (x - 1, y - 1)];

        let mut count: i32 = 0;
        let mut i: usize = 0;
        while i < 4
            invariant
                i <= 4,
                i32::MIN < x < i32::MAX,
                i32::MIN < y < i32::MAX,
                0 <= count <= i,
                offsets[0] == ((x + 1) as i32, (y + 1) as i32),
                offsets[1] == ((x + 1) as i32, (y - 1) as i32),
                offsets[2] == ((x - 1) as i32, (y + 1) as i32),
                offsets[3] == ((x - 1) as i32, (y - 1) as i32),
                count == self.corner_prefix(x as int, y as int, i as int),
            decreases 4 - i,
        {
            let (cx, cy) = offsets[i];
            if self.out_of_bounds(cx, cy) || self.has_block(cx, cy) {
                count = count + 1;
            }
            i = i + 1;
        }
        count >= 3
    }

    /// Number of blocked corners among the first `n` of the four tested by `check_tspin`.
    pub open spec fn corner_prefix(&self, x: int, y: int, n: int) -> int {
        (if n > 0 && self.blocked(x + 1, y + 1) { 1int } else { 0int })
            + (if n > 1 && self.blocked(x + 1, y - 1) { 1int } else { 0int })
            + (if n > 2 && self.blocked(x - 1, y + 1) { 1int } else { 0int })
            + (if n > 3 && self.blocked(x - 1, y - 1) { 1int } else { 0int })
    }

    /// Pushes `lines` garbage rows in from the bottom: every row moves up by `lines`
    /// (the top rows fall off) and each new row is full except for a hole at `column`.
    pub fn push_garbage(&mut self, lines: i32, column: i32)
        requires
            0 <= lines <= PILE_HEIGHT,
        ensures
            forall|y: int| lines <= y < PILE_HEIGHT ==> #[trigger] final(self).0[y] == old(self).0[y - lines],
            forall|x: int, y: int|
                0 <= x < PILE_WIDTH && 0 <= y < lines ==> #[trigger] final(self).cell(x, y) == (if x
                    == column { None } else { Some(Cell::Garbage) }),
            old(self).clean() && 0 <= column < PILE_WIDTH ==> final(self).clean(),
            0 <= column < PILE_WIDTH ==> garbage_pushed(*old(self), *final(self), lines as int),
    {
        let n = lines as usize;
        let ghost before = self.0;
        let mut k: usize = PILE_HEIGHT - n;
        while k > 0
            invariant
                k <= PILE_HEIGHT - n,
                n == lines,
                n <= PILE_HEIGHT,
                forall|i: int| 0 <= i < k + n ==> self.0[i] == before[i],
                forall|i: int| k + n <= i < PILE_HEIGHT ==> self.0[i] == before[i - n],
            decreases k,
        {
            let y = k - 1;
            self.0[y + n] = self.0[y];
            k = y;
        }
        let mut y: usize = 0;
        while y < n
            invariant
                y <= n,
                n == lines,
                n <= PILE_HEIGHT,
                forall|i: int| n <= i < PILE_HEIGHT ==> self.0[i] == before[i - n],
                forall|i: int, x: int|
                    0 <= x < PILE_WIDTH && 0 <= i < y ==> #[trigger] self.0[i][x] == (if x == column {
                        None
                    } else {
                        Some(Cell::Garbage)
                    }),
            decreases n - y,
        {
            let mut row: Row = [None; PILE_WIDTH];
            let mut x: usize = 0;
            while x < PILE_WIDTH
                invariant
                    x <= PILE_WIDTH,
                    forall|j: int| 0 <= j < x ==> #[trigger] row[j] == (if j == column {
                        None
                    } else {
                        Some(Cell::Garbage)
                    }),
                decreases PILE_WIDTH - x,
            {
                if x as i32 != column {
                    row[x] = Some(Cell::Garbage);
                } else {
                    row[x] = None;
                }
                x = x + 1;
            }
            self.0[y] = row;
            y = y + 1;
        }
        proof {
            if 0 <= column < PILE_WIDTH {
                assert forall|i: int| 0 <= i < lines && i < PILE_HEIGHT implies garbage_row(#[trigger] self.0[i]) by {
                    assert(holed_at(self.0[i], column as int));
                }
            }
            if old(self).clean() && 0 <= column < PILE_WIDTH {
                assert forall|i: int| 0 <= i < PILE_HEIGHT implies !row_full(#[trigger] self.0[i]) by {
                    if i < n {
                        assert(self.0[i][column as int].is_none());
                    } else {
                        assert(self.0[i] == before[i - n]);
                    }
                }
            }
        }
    }
}

/// One of the first `n` blocks of `g` is at `(x, y)`.
pub open spec fn covers_upto(g: Piece, x: int, y: int, n: int) -> bool {
    exists|j: int| 0 <= j < n && g.blocks[j].0 == x && g.blocks[j].1 == y
}

/// `p1` is `p0` with the blocks of `g` written in as cells of `g`'s kind.
pub open spec fn written(p1: Pile, p0: Pile, g: Piece) -> bool {
    forall|x: int, y: int|
        in_bounds(x, y) ==> #[trigger] p1.cell(x, y) == (if covers_upto(g, x, y, 4) {
            Some(Cell::PieceKind(g.kind))
        } else {
            p0.cell(x, y)
        })
}

/// A pile is determined by its cells: two piles written from the same pile with the same
/// piece are equal.
pub proof fn lemma_written_unique(p1: Pile, p2: Pile, p0: Pile, g: Piece)
    requires
        written(p1, p0, g),
        written(p2, p0, g),
    ensures
        p1 == p2,
{
    assert forall|y: int| 0 <= y < PILE_HEIGHT implies p1.0[y] == p2.0[y] by {
        assert forall|x: int| 0 <= x < PILE_WIDTH implies p1.0[y][x] == p2.0[y][x] by {
            assert(p1.cell(x, y) == p2.cell(x, y));
        }
        assert(p1.0[y] =~= p2.0[y]);
    }
    assert(p1.0 =~= p2.0);
}

/// The rows kept by a line clear are never more than the rows given.
pub proof fn lemma_without_full_len(rows: Seq<Row>)
    ensures
        without_full(rows).len() <= rows.len(),
    decreases rows.len(),
{
    if rows.len() > 0 {
        lemma_without_full_len(rows.drop_first());
    }
}

/// No row kept by a line clear is full.
pub proof fn lemma_without_full_not_full(rows: Seq<Row>)
    ensures
        forall|i: int| 0 <= i < without_full(rows).len() ==> !row_full(#[trigger] without_full(rows)[i]),
    decreases rows.len(),
{
    if rows.len() > 0 {
        lemma_without_full_not_full(rows.drop_first());
        let head: Seq<Row> = if row_full(rows[0]) { Seq::empty() } else { seq![rows[0]] };
        let rest = without_full(rows.drop_first());
        assert forall|i: int| 0 <= i < without_full(rows).len() implies !row_full(#[trigger] without_full(rows)[i]) by {
            if i < head.len() {
                assert(without_full(rows)[i] == rows[0]);
            } else {
                assert(without_full(rows)[i] == rest[i - head.len()]);
            }
        }
    }
}

/// Every row is either kept or cleared: kept rows plus full rows make up all rows.
pub proof fn lemma_kept_and_cleared(rows: Seq<Row>)
    ensures
        without_full(rows).len() + count_full(rows) == rows.len(),
    decreases rows.len(),
{
    if rows.len() > 0 {
        lemma_kept_and_cleared(rows.drop_first());
    }
}

/// Rows of which none is full contain no full row to count.
pub proof fn lemma_count_full_none(rows: Seq<Row>)
    requires
        forall|i: int| 0 <= i < rows.len() ==> !row_full(#[trigger] rows[i]),
    ensures
        count_full(rows) == 0,
    decreases rows.len(),
{
    if rows.len() > 0 {
        assert(!row_full(rows[0]));
        assert forall|i: int| 0 <= i < rows.drop_first().len() implies !row_full(#[trigger] rows.drop_first()[i]) by {
            assert(rows.drop_first()[i] == rows[i + 1]);
        }
        lemma_count_full_none(rows.drop_first());
    }
}

/// Rows with no full row to count contain no full row.
pub proof fn lemma_count_full_zero(rows: Seq<Row>)
    requires
        count_full(rows) == 0,
    ensures
        forall|i: int| 0 <= i < rows.len() ==> !row_full(#[trigger] rows[i]),
    decreases rows.len(),
{
    if rows.len() > 0 {
        lemma_count_full_zero(rows.drop_first());
        assert forall|i: int| 0 <= i < rows.len() implies !row_full(#[trigger] rows[i]) by {
            if i > 0 {
                assert(rows[i] == rows.drop_first()[i - 1]);
            }
        }
    }
}

/// How many of the four rows `ys` lie in `lo..hi`.
pub open spec fn rows_in(ys: (int, int, int, int), lo: int, hi: int) -> int {
    (if lo <= ys.0 < hi { 1int } else { 0int }) + (if lo <= ys.1 < hi { 1int } else { 0int }) + (if lo
        <= ys.2 < hi { 1int } else { 0int }) + (if lo <= ys.3 < hi { 1int } else { 0int })
}

/// Rows `s` (the first one numbered `base`) of which only rows among `ys` can be full
/// hold at most as many full rows as `ys` has rows in their range.
proof fn lemma_full_rows_among(s: Seq<Row>, base: int, ys: (int, int, int, int))
    requires
        forall|i: int|
            0 <= i < s.len() && row_full(#[trigger] s[i]) ==> (base + i == ys.0 || base + i == ys.1 || base + i
                == ys.2 || base + i == ys.3),
    ensures
        count_full(s) <= rows_in(ys, base, base + s.len()),
    decreases s.len(),
{
    if s.len() > 0 {
        assert forall|i: int|
            0 <= i < s.drop_first().len() && row_full(#[trigger] s.drop_first()[i]) implies (base + 1 + i == ys.0
                || base + 1 + i == ys.1 || base + 1 + i == ys.2 || base + 1 + i == ys.3) by {
            assert(s.drop_first()[i] == s[i + 1]);
        }
        lemma_full_rows_among(s.drop_first(), base + 1, ys);
    }
}

/// Writing a piece into a pile without full rows completes at most four rows: only
/// rows that hold one of its blocks can become full.
pub proof fn lemma_written_completes_at_most_four(p1: Pile, p0: Pile, g: Piece)
    requires
        written(p1, p0, g),
        p0.clean(),
    ensures
        count_full(p1.0@) <= 4,
{
    let ys = (g.blocks[0].1 as int, g.blocks[1].1 as int, g.blocks[2].1 as int, g.blocks[3].1 as int);
    assert forall|i: int| 0 <= i < p1.0@.len() && row_full(#[trigger] p1.0@[i]) implies (0 + i == ys.0 || 0 + i == ys.1
        || 0 + i == ys.2 || 0 + i == ys.3) by {
        assert(!row_full(p0.0[i]));
        let x = choose|x: int| 0 <= x < PILE_WIDTH && !(#[trigger] p0.0[i][x]).is_some();
        assert(p1.0@[i] == p1.0[i]);
        assert(p1.0[i][x].is_some());
        assert(p1.cell(x, i) == p1.0[i][x]);
        assert(covers_upto(g, x, i, 4));
    }
    lemma_full_rows_among(p1.0@, 0, ys);
}

/// Clearing lines where none is full keeps every row in place.
pub proof fn lemma_without_full_of_clean(rows: Seq<Row>)
    requires
        forall|i: int| 0 <= i < rows.len() ==> !row_full(#[trigger] rows[i]),
    ensures
        without_full(rows) == rows,
    decreases rows.len(),
{
    if rows.len() > 0 {
        assert(!row_full(rows[0]));
        assert forall|i: int| 0 <= i < rows.drop_first().len() implies !row_full(#[trigger] rows.drop_first()[i]) by {
            assert(rows.drop_first()[i] == rows[i + 1]);
        }
        lemma_without_full_of_clean(rows.drop_first());
        assert(seq![rows[0]] + rows.drop_first() =~= rows);
    }
}

} // verus!
