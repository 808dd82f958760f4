use tetris_engine::queue::NextQueue;
use tetris_engine::random::PRNG;
use tetris_engine::types::PieceKind;

fn sorted(mut v: Vec<PieceKind>) -> Vec<PieceKind> {
    v.sort_by_key(|k| *k as u8);
    v
}

const ALL: [PieceKind; 7] =
    [PieceKind::I, PieceKind::J, PieceKind::L, PieceKind::O, PieceKind::S, PieceKind::T, PieceKind::Z];

#[test]
fn random_range_stays_in_range() {
    let mut rng = PRNG::new(7);
    for _ in 0..500 {
        let v = rng.random_range(0, 10);
        assert!((0..10).contains(&v));
    }
    assert_eq!(rng.random_range(5, 6), 5);
}

#[test]
fn random_range_is_not_constant() {
    let mut rng = PRNG::new(11);
    let first = rng.random_range(0, 1000);
    assert!((0..50).any(|_| rng.random_range(0, 1000) != first));
}

#[test]
fn same_seed_same_stream() {
    let mut a = PRNG::new(42);
    let mut b = PRNG::new(42);
    for _ in 0..50 {
        assert_eq!(a.random_range(-100, 100), b.random_range(-100, 100));
    }
}

#[test]
fn shuffle_is_a_permutation() {
    let mut rng = PRNG::new(3);
    let mut changed = false;
    for _ in 0..20 {
        let mut v = [1, 2, 3, 4, 5, 6, 7];
        rng.shuffle(&mut v);
        let mut s = v;
        s.sort();
        assert_eq!(s, [1, 2, 3, 4, 5, 6, 7]);
        if v != [1, 2, 3, 4, 5, 6, 7] {
            changed = true;
        }
    }
    assert!(changed);
}

#[test]
fn new_queue_holds_one_bag() {
    for seed in 0..20 {
        let q = NextQueue::new(seed);
        let seven = q.front(7);
        assert_eq!(seven.len(), 7);
        assert_eq!(sorted(seven), ALL.to_vec());
    }
}

#[test]
fn bags_are_shuffled() {
    let orders: Vec<Vec<PieceKind>> = (0..20).map(|s| NextQueue::new(s).front(7)).collect();
    assert!(orders.iter().any(|o| *o != ALL.to_vec()));
}

#[test]
fn pull_takes_front_and_refills_by_bags() {
    let mut q = NextQueue::new(5);
    let mut pulled = Vec::new();
    for _ in 0..70 {
        let front = q.front(1)[0];
        let p = q.pull();
        assert_eq!(p, front);
        pulled.push(p);
        assert_eq!(q.front(5).len(), 5);
    }
    for bag in pulled.chunks(7) {
        assert_eq!(sorted(bag.to_vec()), ALL.to_vec());
    }
}
