//! The fixed-capacity queues of the engine (heapless `Deque`) and the seven-bag
//! piece randomizer built on one of them.
use vstd::prelude::*;
use crate::random::{shuffle_order, Draw, PRNG};
use crate::types::PieceKind;

verus! {

/// Capacity of the upcoming-piece queue.
pub const NEXT_CAPACITY: usize = 11;

/// Capacity of the garbage queue.
pub const GARBAGE_CAPACITY: usize = 40;

/// A heapless `Deque<PieceKind, 11>`; its contents are `piece_deque_items`.
#[verifier::external_body]
pub struct PieceDeque {
    inner: heapless::Deque<PieceKind, NEXT_CAPACITY>,
}

/// The pieces a `PieceDeque` holds, front first.
pub uninterp spec fn piece_deque_items(q: PieceDeque) -> Seq<PieceKind>;

impl PieceDeque {
    /// `Deque::default()`: an empty deque.
    #[verifier::external_body]
    fn new() -> (q: PieceDeque)
        ensures
            piece_deque_items(q) == Seq::<PieceKind>::empty(),
    {
        PieceDeque { inner: heapless::Deque::default() }
    }

    /// `Deque::len`: the number of items, never above the capacity.
    #[verifier::external_body]
    fn len(&self) -> (n: usize)
        ensures
            n == piece_deque_items(*self).len(),
            n <= NEXT_CAPACITY,
    {
        self.inner.len()
    }

    /// `Deque::pop_front`: removes and returns the front item, `None` when empty.
    #[verifier::external_body]
    fn pop_front(&mut self) -> (r: Option<PieceKind>)
        ensures
            piece_deque_items(*old(self)).len() == 0 ==> r is None && piece_deque_items(*final(self))
                == piece_deque_items(*old(self)),
            piece_deque_items(*old(self)).len() > 0 ==> r == Some(piece_deque_items(*old(self))[0])
                && piece_deque_items(*final(self)) == piece_deque_items(*old(self)).drop_first(),
    {
        self.inner.pop_front()
    }

    /// `Extend::extend` of `Deque`: pushes the items at the back in order (it panics when
    /// the deque overflows, which `requires` rules out).
    #[verifier::external_body]
    fn extend(&mut self, items: [PieceKind; 7])
        requires
            piece_deque_items(*old(self)).len() + 7 <= NEXT_CAPACITY,
        ensures
            piece_deque_items(*final(self)) == piece_deque_items(*old(self)) + items@,
    {
        self.inner.extend(items);
    }

    /// `Deque::iter`, copied out front first.
    #[verifier::external_body]
    fn to_vec(&self) -> (v: Vec<PieceKind>)
        ensures
            v@ == piece_deque_items(*self),
    {
        self.inner.iter().copied().collect()
    }
}

/// A heapless `Deque<i32, 40>`; its contents are `garbage_deque_items`.
#[verifier::external_body]
pub struct GarbageDeque {
    inner: heapless::Deque<i32, GARBAGE_CAPACITY>,
}

/// The numbers a `GarbageDeque` holds, front first.
pub uninterp spec fn garbage_deque_items(q: GarbageDeque) -> Seq<i32>;

impl GarbageDeque {
    /// `Deque::default()`: an empty deque.
    #[verifier::external_body]
    pub(crate) fn new() -> (q: GarbageDeque)
        ensures
            garbage_deque_items(q) == Seq::<i32>::empty(),
    {
        GarbageDeque { inner: heapless::Deque::default() }
    }

    /// `Deque::push_back`: appends `v` unless the deque is full, in which case `v` comes
    /// back as the error and nothing changes.
    #[verifier::external_body]
    pub(crate) fn push_back(&mut self, v: i32) -> (r: Result<(), i32>)
        ensures
            garbage_deque_items(*old(self)).len() < GARBAGE_CAPACITY ==> r is Ok
                && garbage_deque_items(*final(self)) == garbage_deque_items(*old(self)).push(v),
            garbage_deque_items(*old(self)).len() >= GARBAGE_CAPACITY ==> r is Err && r->Err_0 == v
                && garbage_deque_items(*final(self)) == garbage_deque_items(*old(self)),
            garbage_deque_items(*final(self)).len() <= GARBAGE_CAPACITY,
    {
        self.inner.push_back(v)
    }

    /// `Deque::is_empty`.
    #[verifier::external_body]
    pub(crate) fn is_empty(&self) -> (r: bool)
        ensures
            r == (garbage_deque_items(*self).len() == 0),
    {
        self.inner.is_empty()
    }

    /// `Deque::clear`: removes every item.
    #[verifier::external_body]
    pub(crate) fn clear(&mut self)
        ensures
            garbage_deque_items(*final(self)) == Seq::<i32>::empty(),
    {
        self.inner.clear()
    }

    /// `Deque::iter`, copied out front first.
    #[verifier::external_body]
    pub(crate) fn to_vec(&self) -> (v: Vec<i32>)
        ensures
            v@ == garbage_deque_items(*self),
    {
        self.inner.iter().copied().collect()
    }
}

/// The seven kinds, each once.
pub open spec fn all_kinds() -> Seq<PieceKind> {
    seq![PieceKind::I, PieceKind::J, PieceKind::L, PieceKind::O, PieceKind::S, PieceKind::T, PieceKind::Z]
}

/// `bag` holds each of the seven kinds exactly once.
pub open spec fn is_bag(bag: Seq<PieceKind>) -> bool {
    bag.to_multiset() == all_kinds().to_multiset()
}

/// `after` is the queue `before` without its front piece, with a new bag appended
/// behind the rest when too few remained.
pub open spec fn pulled(before: Seq<PieceKind>, after: Seq<PieceKind>) -> bool {
    ||| after == before.drop_first()
    ||| {
        &&& after.len() == before.len() + 6
        &&& after.subrange(0, before.len() - 1) == before.drop_first()
        &&& is_bag(after.subrange(before.len() - 1, after.len() as int))
    }
}

/// The seven kinds in the order a shuffle of the generator seeded with `seed`, after
/// `history`, puts them.
pub open spec fn bag_order(seed: u64, history: Seq<Draw>) -> Seq<PieceKind> {
    Seq::new(7, |i: int| all_kinds()[shuffle_order(seed, history, 7)[i]])
}

/// A bag holds exactly seven pieces.
pub proof fn lemma_bag_len(bag: Seq<PieceKind>)
    requires
        is_bag(bag),
    ensures
        bag.len() == 7,
{
    vstd::seq_lib::to_multiset_len(bag);
    vstd::seq_lib::to_multiset_len(all_kinds());
}

/// The upcoming pieces, refilled one shuffled bag of all seven kinds at a time.
pub struct NextQueue {
    pub(crate) pieces: PieceDeque,
    pub(crate) rng: PRNG,
}

impl NextQueue {
    /// The upcoming pieces, front first.
    pub closed spec fn items(&self) -> Seq<PieceKind> {
        piece_deque_items(self.pieces)
    }

    /// The seed and the earlier uses of the generator that shuffles the bags.
    pub closed spec fn rng_state(&self) -> (u64, Seq<Draw>) {
        self.rng@
    }

    /// Between five and eleven pieces are waiting.
    pub open spec fn wf(&self) -> bool {
        5 <= self.items().len() <= NEXT_CAPACITY
    }

    /// A queue seeded with `seed`, holding one shuffled bag.
    pub fn new(seed: u64) -> (r: NextQueue)
        ensures
            r.wf(),
            is_bag(r.items()),
            r.items() == bag_order(seed, Seq::<Draw>::empty()),
            r.rng_state() == (seed, seq![Draw::Shuffle(7)]),
    {
        let mut result = NextQueue { pieces: PieceDeque::new(), rng: PRNG::new(seed) };

        result.add_bag();
        assert(result.items() =~= Seq::<PieceKind>::empty() + result.items().subrange(0, 7));
        result
    }

    /// Takes the front piece; when fewer than five remain, appends a new shuffled bag.
    pub fn pull(&mut self) -> (r: PieceKind)
        requires
            old(self).wf(),
        ensures
            final(self).wf(),
            r == old(self).items()[0],
            pulled(old(self).items(), final(self).items()),
            old(self).items().len() > 5 ==> final(self).items() == old(self).items().drop_first()
                && final(self).rng_state() == old(self).rng_state(),
            old(self).items().len() <= 5 ==> {
                &&& final(self).items() == old(self).items().drop_first() + bag_order(
                    old(self).rng_state().0,
                    old(self).rng_state().1,
                )
                &&& final(self).rng_state() == (old(self).rng_state().0, old(self).rng_state().1.push(Draw::Shuffle(7)))
            },
    {
        let result = self.pieces.pop_front();
        let result = match result {
            Some(p) => p,
            None => {
                assert(false);
                PieceKind::I
            },
        };
        if self.pieces.len() < 5 {
            self.add_bag();
        }
        result
    }

    /// Appends the seven kinds in an order drawn from the generator.
    fn add_bag(&mut self)
        requires
            old(self).items().len() + 7 <= NEXT_CAPACITY,
        ensures
            final(self).items().len() == old(self).items().len() + 7,
            final(self).items().subrange(0, old(self).items().len() as int) == old(self).items(),
            is_bag(final(self).items().subrange(old(self).items().len() as int, final(self).items().len() as int)),
            final(self).items().subrange(old(self).items().len() as int, final(self).items().len() as int)
                == bag_order(old(self).rng@.0, old(self).rng@.1),
            final(self).rng@ == (old(self).rng@.0, old(self).rng@.1.push(Draw::Shuffle(7))),
    {
        let mut bag = [
            PieceKind::I,
            PieceKind::J,
            PieceKind::L,
            PieceKind::O,
            PieceKind::S,
            PieceKind::T,
            PieceKind::Z,
        ];
        assert(bag@ =~= all_kinds());
        let ghost rng_before = self.rng@;
        self.rng.shuffle(&mut bag);
        assert(bag@ =~= bag_order(rng_before.0, rng_before.1));
        let ghost before = self.items();
        self.pieces.extend(bag);
        assert(self.items().subrange(0, before.len() as int) =~= before);
        assert(self.items().subrange(before.len() as int, self.items().len() as int) =~= bag@);
    }

    /// The first `n` upcoming pieces.
    pub fn front(&self, n: usize) -> (v: Vec<PieceKind>)
        requires
            n <= self.items().len(),
        ensures
            v@ == self.items().take(n as int),
    {
        let all = self.pieces.to_vec();
        let mut v: Vec<PieceKind> = Vec::new();
        let mut i: usize = 0;
        while i < n
            invariant
                i <= n,
                n <= all@.len(),
                v@ == all@.take(i as int),
            decreases n - i,
        {
            v.push(all[i]);
            i = i + 1;
            assert(v@ =~= all@.take(i as int));
        }
        v
    }
}

} // verus!
