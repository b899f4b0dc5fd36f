use tetrs_engine::pieces::{add, ActivePiece, Board, Orientation, Tetromino, HEIGHT};

fn empty_board() -> Board {
    vec![[None; 10]; HEIGHT]
}

#[test]
fn rotate_r_turns_right_and_left() {
    assert_eq!(Orientation::N.rotate_r(1), Orientation::E);
    assert_eq!(Orientation::W.rotate_r(1), Orientation::N);
    assert_eq!(Orientation::N.rotate_r(-1), Orientation::W);
    assert_eq!(Orientation::E.rotate_r(6), Orientation::W);
    assert_eq!(Orientation::S.rotate_r(-6), Orientation::N);
}

#[test]
fn rotate_r_composes_and_full_turns_return() {
    for o in [Orientation::N, Orientation::E, Orientation::S, Orientation::W] {
        assert_eq!(o.rotate_r(4), o);
        assert_eq!(o.rotate_r(-8), o);
        for a in -5..5 {
            for b in -5..5 {
                assert_eq!(o.rotate_r(a).rotate_r(b), o.rotate_r(a + b));
            }
        }
    }
}

#[test]
fn minos_of_t_and_i() {
    assert_eq!(Tetromino::T.minos(Orientation::N), [(0, 0), (1, 0), (2, 0), (1, 1)]);
    assert_eq!(Tetromino::T.minos(Orientation::W), [(1, 0), (0, 1), (1, 1), (1, 2)]);
    assert_eq!(Tetromino::I.minos(Orientation::E), [(0, 0), (0, 1), (0, 2), (0, 3)]);
    assert_eq!(Tetromino::O.minos(Orientation::S), [(0, 0), (1, 0), (0, 1), (1, 1)]);
}

#[test]
fn tile_type_ids_follow_conventional_order() {
    let ids: Vec<u32> = Tetromino::all().iter().map(|t| t.tiletypeid()).collect();
    assert_eq!(ids, vec![1, 2, 3, 4, 5, 6, 7]);
}

#[test]
fn index_roundtrip() {
    for t in Tetromino::all() {
        assert_eq!(Tetromino::try_from_index(t.index()), Ok(t));
    }
    assert_eq!(Tetromino::try_from_index(7), Err(()));
    assert_eq!(Tetromino::J.index(), 6);
}

#[test]
fn add_offsets_and_bounds() {
    assert_eq!(add((3, 4), (-1, 2)), Some((2, 6)));
    assert_eq!(add((0, 0), (-1, 0)), None);
    assert_eq!(add((5, 0), (0, -1)), None);
    assert_eq!(add((usize::MAX, 0), (1, 0)), None);
    // Adding an offset and then its opposite gives back the coordinate.
    let c = add((7, 9), (2, -3)).unwrap();
    assert_eq!(add(c, (-2, 3)), Some((7, 9)));
}

#[test]
fn tiles_of_piece() {
    let p = ActivePiece { shape: Tetromino::L, orientation: Orientation::N, position: (3, 5) };
    assert_eq!(p.tiles(), [((3, 5), 6), ((4, 5), 6), ((5, 5), 6), ((5, 6), 6)]);
}

#[test]
fn fits_checks_bounds_and_tiles() {
    let mut board = empty_board();
    let p = ActivePiece { shape: Tetromino::I, orientation: Orientation::N, position: (6, 0) };
    assert!(p.fits(&board));
    let q = ActivePiece { position: (7, 0), ..p };
    assert!(!q.fits(&board));
    board[0][8] = Some(1);
    assert!(!p.fits(&board));
    assert_eq!(p.fits_at(&board, (-1, 0)), None);
    assert_eq!(p.fits_at(&board, (-3, 0)), Some(ActivePiece { position: (3, 0), ..p }));
    assert_eq!(p.fits_at(&board, (0, 1)), Some(ActivePiece { position: (6, 1), ..p }));
}

#[test]
fn first_fit_takes_first_fitting_offset() {
    let mut board = empty_board();
    board[1][4] = Some(3);
    let p = ActivePiece { shape: Tetromino::O, orientation: Orientation::N, position: (4, 1) };
    let r = p.first_fit(&board, &[(0, 0), (-1, 0), (2, 0)], 0);
    assert_eq!(r, Some(ActivePiece { position: (6, 1), ..p }));
    let rot = p.first_fit(&board, &[(1, 0)], 1);
    assert_eq!(rot, Some(ActivePiece { orientation: Orientation::E, position: (5, 1), ..p }));
    assert_eq!(p.first_fit(&board, &[], 0), None);
}

#[test]
fn fits_at_rotated_turns_and_moves() {
    let board = empty_board();
    let p = ActivePiece { shape: Tetromino::T, orientation: Orientation::N, position: (3, 3) };
    assert_eq!(
        p.fits_at_rotated(&board, (1, -1), 1),
        Some(ActivePiece { orientation: Orientation::E, position: (4, 2), ..p })
    );
}

#[test]
fn well_piece_drops_to_floor_or_stack() {
    let mut board = empty_board();
    let p = ActivePiece { shape: Tetromino::I, orientation: Orientation::N, position: (3, 19) };
    assert_eq!(p.well_piece(&board).position, (3, 0));
    board[4][5] = Some(1);
    let w = p.well_piece(&board);
    assert_eq!(w.position, (3, 5));
    assert!(w.fits(&board));
    assert_eq!(w.fits_at(&board, (0, -1)), None);
}

#[test]
fn minos_turn_clockwise_and_hang_together() {
    let shapes = [Tetromino::O, Tetromino::I, Tetromino::S, Tetromino::Z, Tetromino::T, Tetromino::L, Tetromino::J];
    let orientations = [Orientation::N, Orientation::E, Orientation::S, Orientation::W];
    for t in shapes {
        for k in 0..4 {
            let m = t.minos(orientations[k]);
            let next = t.minos(orientations[(k + 1) % 4]);
            let w = m.iter().map(|c| c.0).max().unwrap();
            for &(x, y) in &m {
                assert!(next.contains(&(y, w - x)));
            }
            // Distinct, and every cell lies beside another one.
            for i in 0..4 {
                for j in 0..4 {
                    if i != j {
                        assert_ne!(m[i], m[j]);
                    }
                }
                assert!(m.iter().any(|&(x, y)| (x.abs_diff(m[i].0) + y.abs_diff(m[i].1)) == 1));
            }
        }
    }
    // T facing north turns into T facing east.
    assert_eq!(Tetromino::T.minos(Orientation::N), [(0, 0), (1, 0), (2, 0), (1, 1)]);
    assert_eq!(Tetromino::T.minos(Orientation::E), [(0, 0), (0, 1), (1, 1), (0, 2)]);
}
