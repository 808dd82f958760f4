use tetris_engine::pile::Pile;
use tetris_engine::types::{Cell, PieceKind};

fn filled_row() -> [Option<Cell>; 10] {
    [Some(Cell::Garbage); 10]
}

fn occupied(p: &Pile) -> usize {
    p.0.iter().map(|r| r.iter().filter(|c| c.is_some()).count()).sum()
}

#[test]
fn new_pile_is_empty() {
    let p = Pile::new();
    assert_eq!(occupied(&p), 0);
    assert_eq!(p.lines_to_clear(), 0);
}

#[test]
fn bounds_and_blocks() {
    let mut p = Pile::new();
    assert!(p.out_of_bounds(-1, 0));
    assert!(p.out_of_bounds(10, 0));
    assert!(p.out_of_bounds(0, -1));
    assert!(p.out_of_bounds(0, 40));
    assert!(!p.out_of_bounds(9, 39));
    assert!(!p.has_block(3, 4));
    p.0[4][3] = Some(Cell::PieceKind(PieceKind::T));
    assert!(p.has_block(3, 4));
}

#[test]
fn row_full_and_count() {
    let mut p = Pile::new();
    p.0[0] = filled_row();
    p.0[2] = filled_row();
    p.0[3][0] = Some(Cell::Garbage);
    assert!(p.is_row_full(0));
    assert!(!p.is_row_full(1));
    assert!(p.is_row_full(2));
    assert!(!p.is_row_full(3));
    assert_eq!(p.lines_to_clear(), 2);
}

#[test]
fn line_clear_removes_full_rows_and_drops_the_rest() {
    let mut p = Pile::new();
    p.0[0] = filled_row();
    p.0[1][5] = Some(Cell::PieceKind(PieceKind::J));
    p.0[2] = filled_row();
    p.0[3][7] = Some(Cell::PieceKind(PieceKind::L));
    p.0[39] = filled_row();
    p.line_clear();
    assert_eq!(p.0[0][5], Some(Cell::PieceKind(PieceKind::J)));
    assert_eq!(p.0[1][7], Some(Cell::PieceKind(PieceKind::L)));
    assert_eq!(occupied(&p), 2);
    assert_eq!(p.lines_to_clear(), 0);
    for y in 2..40 {
        assert!(p.0[y].iter().all(|c| c.is_none()));
    }
}

#[test]
fn line_clear_twice_is_line_clear_once() {
    let mut p = Pile::new();
    p.0[5] = filled_row();
    p.0[6][1] = Some(Cell::Garbage);
    p.line_clear();
    let once = p.0;
    p.line_clear();
    assert_eq!(p.0, once);
}

#[test]
fn collision_detection() {
    let mut p = Pile::new();
    p.0[0][4] = Some(Cell::Garbage);
    assert!(!p.check_collision(&[(0, 0), (1, 0), (9, 39)]));
    assert!(p.check_collision(&[(0, 1), (4, 0)]));
    assert!(p.check_collision(&[(0, 1), (-1, 5)]));
    assert!(p.check_collision(&[(10, 1)]));
    assert!(!p.check_collision(&[]));
}

#[test]
fn tspin_needs_three_corners() {
    let mut p = Pile::new();
    // At the floor two corners are outside the pile.
    assert!(!p.check_tspin(4, 0));
    p.0[1][3] = Some(Cell::Garbage);
    assert!(p.check_tspin(4, 0));
    // In the open no corner is blocked.
    assert!(!p.check_tspin(4, 10));
    p.0[11][5] = Some(Cell::Garbage);
    p.0[9][5] = Some(Cell::Garbage);
    assert!(!p.check_tspin(4, 10));
    p.0[9][3] = Some(Cell::Garbage);
    assert!(p.check_tspin(4, 10));
    // The corner column outside the left wall counts.
    assert!(p.check_tspin(0, 5) == false);
    p.0[6][1] = Some(Cell::Garbage);
    assert!(p.check_tspin(0, 5));
}

#[test]
fn push_garbage_shifts_rows_up() {
    let mut p = Pile::new();
    p.0[0][2] = Some(Cell::PieceKind(PieceKind::O));
    p.0[39][9] = Some(Cell::PieceKind(PieceKind::S));
    p.push_garbage(2, 7);
    for y in 0..2 {
        for x in 0..10 {
            if x == 7 {
                assert_eq!(p.0[y][x], None);
            } else {
                assert_eq!(p.0[y][x], Some(Cell::Garbage));
            }
        }
    }
    assert_eq!(p.0[2][2], Some(Cell::PieceKind(PieceKind::O)));
    // The top row fell off.
    assert_eq!(occupied(&p), 9 * 2 + 1);
}

#[test]
fn push_garbage_zero_lines_changes_nothing() {
    let mut p = Pile::new();
    p.0[3][3] = Some(Cell::Garbage);
    let before = p.0;
    p.push_garbage(0, 4);
    assert_eq!(p.0, before);
}

#[test]
fn push_garbage_full_height() {
    let mut p = Pile::new();
    p.push_garbage(40, 0);
    assert_eq!(occupied(&p), 9 * 40);
    assert!(p.0.iter().all(|r| r[0].is_none()));
}

#[test]
fn default_pile_is_empty() {
    let p = Pile::default();
    assert!(p.0.iter().all(|r| r.iter().all(|c| c.is_none())));
    assert_eq!(p.lines_to_clear(), 0);
}
