use tetris_engine::timer::Timer;

#[test]
fn stopped_timer_never_fires() {
    let mut t = Timer::default();
    assert_eq!(t.0, 0);
    for _ in 0..5 {
        assert!(!t.tick());
        assert_eq!(t.0, 0);
    }
}

#[test]
fn timer_fires_on_nth_tick_only() {
    for n in 1..8u32 {
        let mut t = Timer(0);
        t.set(n);
        for k in 1..=(n + 3) {
            assert_eq!(t.tick(), k == n);
        }
        assert_eq!(t.0, 0);
    }
}

#[test]
fn timer_stop_and_set() {
    let mut t = Timer(0);
    t.set(3);
    assert!(!t.tick());
    assert_eq!(t.0, 2);
    t.stop();
    assert_eq!(t.0, 0);
    assert!(!t.tick());
}
