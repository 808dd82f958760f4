use tetris_engine::piece::Piece;
use tetris_engine::tables::{kick_offset, piece_blocks};
use tetris_engine::types::{Config, Direction, Orientation, PieceKind};

#[test]
fn default_config_values() {
    let c = Config::default();
    assert_eq!(c.spawn, 60);
    assert_eq!(c.das, 6);
    assert_eq!(c.arr, 0);
    assert_eq!(c.are, 0);
    assert_eq!(c.gravity, 60);
    assert_eq!(c.softdrop, 0);
    assert_eq!(c.line_clear, 0);
}

#[test]
fn rotate_cw_turns_clockwise() {
    assert_eq!(Orientation::N.rotate_cw(1), Orientation::E);
    assert_eq!(Orientation::E.rotate_cw(1), Orientation::S);
    assert_eq!(Orientation::S.rotate_cw(1), Orientation::W);
    assert_eq!(Orientation::W.rotate_cw(1), Orientation::N);
    assert_eq!(Orientation::N.rotate_cw(2), Orientation::S);
    assert_eq!(Orientation::E.rotate_cw(3), Orientation::N);
}

#[test]
fn rotate_cw_full_turn_and_non_positive() {
    for o in [Orientation::N, Orientation::E, Orientation::S, Orientation::W] {
        assert_eq!(o.rotate_cw(4), o);
        assert_eq!(o.rotate_cw(0), o);
        assert_eq!(o.rotate_cw(-3), o);
        assert_eq!(o.rotate_cw(1).rotate_cw(2), o.rotate_cw(3));
    }
    assert_eq!(Orientation::N.rotate_cw(5), Orientation::E);
}

#[test]
fn direction_offsets() {
    assert_eq!(Direction::Left.offset(), -1);
    assert_eq!(Direction::Right.offset(), 1);
}

#[test]
fn piece_blocks_table_entries() {
    assert_eq!(piece_blocks(PieceKind::I, Orientation::N), [(0, 0), (-1, 0), (1, 0), (2, 0)]);
    assert_eq!(piece_blocks(PieceKind::T, Orientation::E), [(0, 0), (0, 1), (1, 0), (0, -1)]);
    assert_eq!(piece_blocks(PieceKind::Z, Orientation::W), [(0, 0), (0, 1), (-1, 0), (-1, -1)]);
    assert_eq!(piece_blocks(PieceKind::O, Orientation::S), [(0, 0), (0, -1), (-1, -1), (-1, 0)]);
}

#[test]
fn pivot_is_first_block_of_every_shape() {
    let kinds = [PieceKind::I, PieceKind::J, PieceKind::L, PieceKind::O, PieceKind::S, PieceKind::T, PieceKind::Z];
    for k in kinds {
        for o in [Orientation::N, Orientation::E, Orientation::S, Orientation::W] {
            let b = piece_blocks(k, o);
            assert_eq!(b[0], (0, 0));
            for (x, y) in b {
                assert!((-2..=2).contains(&x) && (-2..=2).contains(&y));
            }
        }
    }
}

#[test]
fn kick_offsets_exact_values() {
    // I piece from N to E, second test: (-1, 0) - (0, 0).
    assert_eq!(kick_offset(PieceKind::I, Orientation::N, 1, 1), (-1, 0));
    // I piece, first test: (0, 0) - (-1, 0).
    assert_eq!(kick_offset(PieceKind::I, Orientation::N, 1, 0), (1, 0));
    // T piece from N to E, third test: (0, 0) - (1, -1).
    assert_eq!(kick_offset(PieceKind::T, Orientation::N, 1, 2), (-1, 1));
    // J piece from E to N, fourth test: (0, 2) - (0, 0).
    assert_eq!(kick_offset(PieceKind::J, Orientation::E, 3, 3), (0, 2));
    // O piece from E to S: (0, -1) - (-1, -1).
    assert_eq!(kick_offset(PieceKind::O, Orientation::E, 1, 3), (1, 0));
    // I piece flipped from E to W, last test: (0, -2) - (0, 2).
    assert_eq!(kick_offset(PieceKind::I, Orientation::E, 2, 4), (0, -4));
}

#[test]
fn kick_without_rotation_is_zero() {
    let kinds = [PieceKind::I, PieceKind::J, PieceKind::L, PieceKind::O, PieceKind::S, PieceKind::T, PieceKind::Z];
    for k in kinds {
        for o in [Orientation::N, Orientation::E, Orientation::S, Orientation::W] {
            for n in 0..5 {
                assert_eq!(kick_offset(k, o, 0, n), (0, 0));
            }
        }
    }
}

#[test]
fn o_piece_kick_same_for_all_tests() {
    for o in [Orientation::N, Orientation::E, Orientation::S, Orientation::W] {
        for r in 0..4 {
            let first = kick_offset(PieceKind::O, o, r, 0);
            for n in 1..5 {
                assert_eq!(kick_offset(PieceKind::O, o, r, n), first);
            }
        }
    }
}

#[test]
fn spawn_places_piece_at_spawn_point() {
    let p = Piece::spawn(PieceKind::T);
    assert_eq!(p.kind, PieceKind::T);
    assert_eq!(p.orientation, Orientation::N);
    assert_eq!(p.x, 4);
    assert_eq!(p.y, 22);
    assert_eq!(p.blocks, [(4, 22), (3, 22), (4, 23), (5, 22)]);
}

#[test]
fn changed_by_moves_and_turns() {
    let p = Piece::spawn(PieceKind::L);
    let q = p.changed_by(-2, -5, 1);
    assert_eq!(q.kind, PieceKind::L);
    assert_eq!(q.orientation, Orientation::E);
    assert_eq!((q.x, q.y), (2, 17));
    assert_eq!(q.blocks, [(2, 17), (2, 18), (3, 16), (2, 16)]);
    assert_eq!(p.changed_by(0, 0, 0), p);
    assert_eq!(p.changed_by(1, 0, 0).changed_by(2, -1, 1), p.changed_by(3, -1, 1));
}

#[test]
fn update_blocks_recomputes_from_pivot() {
    let mut p = Piece::spawn(PieceKind::S);
    p.x = 7;
    p.y = 3;
    p.orientation = Orientation::S;
    p.update_blocks();
    assert_eq!(p.blocks, [(7, 3), (8, 3), (7, 2), (6, 2)]);
}

#[test]
fn lowest_y_is_minimum_row() {
    assert_eq!(Piece::spawn(PieceKind::T).lowest_y(), 22);
    assert_eq!(Piece::spawn(PieceKind::I).changed_by(0, 0, 1).lowest_y(), 20);
    assert_eq!(Piece::spawn(PieceKind::S).changed_by(0, -10, 2).lowest_y(), 11);
}
