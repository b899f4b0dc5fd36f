use tetrs_engine::pieces::{ActivePiece, Board, Orientation, Tetromino, HEIGHT};
use tetrs_engine::rotation::{Classic, Okay, RotationSystem};

fn empty_board() -> Board {
    vec![[None; 10]; HEIGHT]
}

#[test]
fn zero_turns_keep_the_piece() {
    let board = empty_board();
    let p = ActivePiece { shape: Tetromino::S, orientation: Orientation::E, position: (4, 10) };
    for sys in [RotationSystem::Ocular, RotationSystem::Classic, RotationSystem::Super] {
        assert_eq!(sys.rotate(&p, &board, 0), Some(p));
        assert_eq!(sys.rotate(&p, &board, 4), Some(p));
    }
}

#[test]
fn classic_single_kick() {
    let board = empty_board();
    let p = ActivePiece { shape: Tetromino::I, orientation: Orientation::N, position: (3, 10) };
    // I piece turning right from north kicks by (2, -1).
    let r = RotationSystem::Classic.rotate(&p, &board, 1).unwrap();
    assert_eq!(r, ActivePiece { orientation: Orientation::E, position: (5, 9), ..p });
    // The Classic struct behaves as the Classic system.
    let mut classic = Classic;
    assert_eq!(classic.rotate(&p, &board, 1), Some(r));
    assert_eq!(classic.rotate(&p, &board, -1), RotationSystem::Classic.rotate(&p, &board, -1));
}

#[test]
fn classic_half_turn_only_in_place() {
    let mut board = empty_board();
    let p = ActivePiece { shape: Tetromino::T, orientation: Orientation::N, position: (3, 0) };
    assert_eq!(
        RotationSystem::Classic.rotate(&p, &board, 2),
        Some(ActivePiece { orientation: Orientation::S, ..p })
    );
    board[0][3] = Some(1);
    board[1][4] = Some(1);
    assert_eq!(RotationSystem::Classic.rotate(&p, &board, 2), None);
}

#[test]
fn ocular_rotation_result_fits_and_keeps_shape() {
    let mut board = empty_board();
    for x in 0..10 {
        if x != 4 {
            board[0][x] = Some(1);
        }
    }
    for shape in Tetromino::all() {
        for o in [Orientation::N, Orientation::E, Orientation::S, Orientation::W] {
            let p = ActivePiece { shape, orientation: o, position: (3, 5) };
            for turns in [1, 2, 3, -1] {
                for sys in [RotationSystem::Ocular, RotationSystem::Super, RotationSystem::Classic] {
                    if let Some(q) = sys.rotate(&p, &board, turns) {
                        assert!(q.fits(&board));
                        assert_eq!(q.shape, shape);
                        assert_eq!(q.orientation, o.rotate_r(turns));
                    }
                }
            }
        }
    }
}

#[test]
fn place_initial_positions() {
    let mut sys = RotationSystem::Ocular;
    assert_eq!(
        sys.place_initial(Tetromino::O),
        ActivePiece { shape: Tetromino::O, orientation: Orientation::N, position: (4, 20) }
    );
    assert_eq!(
        sys.place_initial(Tetromino::T),
        ActivePiece { shape: Tetromino::T, orientation: Orientation::N, position: (3, 20) }
    );
    let mut classic = Classic;
    assert_eq!(classic.place_initial(Tetromino::J).position, (3, 20));
}

#[test]
fn okay_initial_orientations() {
    let mut okay = Okay;
    assert_eq!(
        okay.place_initial(Tetromino::S),
        ActivePiece { shape: Tetromino::S, orientation: Orientation::E, position: (4, 20) }
    );
    assert_eq!(okay.place_initial(Tetromino::J).orientation, Orientation::W);
    assert_eq!(okay.place_initial(Tetromino::I).position, (3, 20));
}

#[test]
fn okay_quarter_turns() {
    let board = empty_board();
    let mut okay = Okay;
    let t = ActivePiece { shape: Tetromino::T, orientation: Orientation::N, position: (3, 5) };
    // T turning left from north first tries (0, -1).
    assert_eq!(
        okay.rotate(&t, &board, -1),
        Some(ActivePiece { orientation: Orientation::W, position: (3, 4), ..t })
    );
    // T turning right mirrors the left kicks of the dual orientation about x = 1: (1 - 0, -1).
    assert_eq!(
        okay.rotate(&t, &board, 1),
        Some(ActivePiece { orientation: Orientation::E, position: (4, 4), ..t })
    );
    assert_eq!(okay.rotate(&t, &board, 4), Some(t));
}

#[test]
fn classic_rotation_is_undone_by_the_opposite_turn() {
    let board = empty_board();
    for shape in [Tetromino::O, Tetromino::I, Tetromino::S, Tetromino::Z, Tetromino::T, Tetromino::L, Tetromino::J] {
        for orientation in [Orientation::N, Orientation::E, Orientation::S, Orientation::W] {
            let p = ActivePiece { shape, orientation, position: (4, 10) };
            for turns in [-3, -2, -1, 1, 2, 3, 5] {
                let q = RotationSystem::Classic.rotate(&p, &board, turns).unwrap();
                assert_eq!(RotationSystem::Classic.rotate(&q, &board, -turns), Some(p));
            }
        }
    }
    // T turning right from north kicks by (1, -1); turning back left kicks by (-1, 1).
    let p = ActivePiece { shape: Tetromino::T, orientation: Orientation::N, position: (4, 10) };
    let q = RotationSystem::Classic.rotate(&p, &board, 1).unwrap();
    assert_eq!(q, ActivePiece { shape: Tetromino::T, orientation: Orientation::E, position: (5, 9) });
}

#[test]
fn whole_and_half_turns_accept_any_turn_count() {
    let board = empty_board();
    let p = ActivePiece { shape: Tetromino::T, orientation: Orientation::W, position: (4, 10) };
    assert_eq!(RotationSystem::Super.rotate(&p, &board, i32::MAX - 3), Some(p));
    assert!(RotationSystem::Ocular.rotate(&p, &board, i32::MAX - 1).is_some());
}
