use blockfall::{
    create_piece_map, filled_rows, read_inputs, remove_rows, Game, Input, Matrix, MovementAction,
    Piece, PieceColor, RotationAction,
};

fn empty_matrix(width: usize, height: usize) -> Matrix {
    vec![vec![PieceColor::Empty; width]; height]
}

fn idle_input() -> Input {
    Input {
        hard_drop: false,
        soft_drop: false,
        left: false,
        right: false,
        left_held: 0,
        right_held: 0,
        rot_cw: false,
        rot_ccw: false,
        rot_180: false,
    }
}

fn piece_of(id: char, row: i32, col: i32) -> Piece {
    let cat = create_piece_map();
    let entry = cat.iter().find(|e| e.0 == id).expect("piece id in catalog");
    Piece { shape: entry.1.shape.clone(), color: entry.1.color, row, col, rotation: 0 }
}

#[test]
fn catalog_has_the_four_piece_types() {
    let cat = create_piece_map();
    assert_eq!(cat.len(), 4);
    let ids: Vec<char> = cat.iter().map(|e| e.0).collect();
    assert_eq!(ids, vec!['I', 'T', 'O', '2']);
    assert_eq!(cat[0].1.shape[0], vec![(0, 0), (0, 1), (0, 2), (0, 3)]);
    assert_eq!(cat[0].1.shape[1], vec![(0, 2), (1, 2), (2, 2), (3, 2)]);
    assert_eq!(cat[3].1.shape[0], vec![(0, 0), (0, 1)]);
    for e in cat.iter() {
        assert_eq!(e.1.shape.len(), 4);
        assert!(e.1.color != PieceColor::Empty);
    }
}

#[test]
fn movement_applies_exact_delta_on_success() {
    let matrix = empty_matrix(10, 20);
    let mut piece = piece_of('T', 5, 4);
    let ok = piece.movement(&matrix, 1, 0);
    assert!(ok);
    assert_eq!((piece.row, piece.col), (5, 5));
    let ok = piece.movement(&matrix, 0, 1);
    assert!(ok);
    assert_eq!((piece.row, piece.col), (6, 5));
}

#[test]
fn movement_leaves_position_untouched_on_failure() {
    let matrix = empty_matrix(10, 20);
    let mut piece = piece_of('T', 5, 0);
    let ok = piece.movement(&matrix, -1, 0);
    assert!(!ok);
    assert_eq!((piece.row, piece.col, piece.rotation), (5, 0, 0));
}

#[test]
fn movement_rejects_collision_with_locked_cells() {
    let mut matrix = empty_matrix(10, 20);
    matrix[7][4] = PieceColor::Green;
    // T in rotation 0 covers (row, 1), (row+1, 0..=2); moving down from
    // row 5 would put a cell onto the occupied (7, 4).
    let mut piece = piece_of('T', 5, 3);
    let ok = piece.movement(&matrix, 0, 1);
    assert!(!ok);
    assert_eq!((piece.row, piece.col), (5, 3));
}

#[test]
fn filled_rows_ignores_row_with_gap() {
    let mut matrix = vec![vec![
        PieceColor::Cyan,
        PieceColor::Cyan,
        PieceColor::Empty,
        PieceColor::Cyan,
    ]];
    let rows = filled_rows(&mut matrix);
    assert!(rows.is_empty());
}

#[test]
fn filled_rows_reports_full_rows_in_order() {
    let mut matrix = empty_matrix(3, 4);
    for c in 0..3 {
        matrix[1][c] = PieceColor::Purple;
        matrix[3][c] = PieceColor::Yellow;
    }
    matrix[2][0] = PieceColor::Cyan;
    let rows = filled_rows(&mut matrix);
    assert_eq!(rows, vec![1, 3]);
}

#[test]
fn remove_rows_clears_bottom_row_and_shifts() {
    let mut matrix = empty_matrix(3, 4);
    for c in 0..3 {
        matrix[3][c] = PieceColor::Cyan;
    }
    matrix[2][1] = PieceColor::Purple;
    remove_rows(&mut matrix, vec![3]);
    // the marker of row 2 lands in row 3, everything else is empty
    assert_eq!(matrix[3][1], PieceColor::Purple);
    for r in 0..4 {
        for c in 0..3 {
            if (r, c) != (3, 1) {
                assert_eq!(matrix[r][c], PieceColor::Empty);
            }
        }
    }
}

#[test]
fn remove_rows_of_only_filled_bottom_leaves_all_empty() {
    let mut matrix = empty_matrix(3, 4);
    for c in 0..3 {
        matrix[3][c] = PieceColor::Green;
    }
    remove_rows(&mut matrix, vec![3]);
    for r in 0..4 {
        for c in 0..3 {
            assert_eq!(matrix[r][c], PieceColor::Empty);
        }
    }
}

#[test]
fn remove_rows_processes_batch_sequentially() {
    let mut matrix = empty_matrix(2, 4);
    matrix[0][0] = PieceColor::Purple;
    for c in 0..2 {
        matrix[1][c] = PieceColor::Cyan;
        matrix[3][c] = PieceColor::Yellow;
    }
    remove_rows(&mut matrix, vec![1, 3]);
    // both filled rows are gone, the marker has moved down twice
    assert_eq!(matrix[2][0], PieceColor::Purple);
    for r in 0..4 {
        for c in 0..2 {
            if (r, c) != (2, 0) {
                assert_eq!(matrix[r][c], PieceColor::Empty);
            }
        }
    }
}

#[test]
fn rotate_steps_through_all_four_states() {
    let matrix = empty_matrix(10, 20);
    let mut piece = piece_of('T', 5, 4);
    piece.rotate(&matrix, 1);
    assert_eq!(piece.rotation, 1);
    piece.rotate(&matrix, 2);
    assert_eq!(piece.rotation, 3);
    piece.rotate(&matrix, 3);
    assert_eq!(piece.rotation, 2);
    piece.rotate(&matrix, 2);
    assert_eq!(piece.rotation, 0);
}

#[test]
fn rotate_rejected_when_new_state_collides() {
    let mut matrix = empty_matrix(10, 20);
    // I in rotation 0 at (5, 3) lies flat in row 5; rotation 1 stands in
    // column 5, hitting the block placed at (8, 5).
    matrix[8][5] = PieceColor::Green;
    let mut piece = piece_of('I', 5, 3);
    piece.rotate(&matrix, 1);
    assert_eq!(piece.rotation, 0);
    assert_eq!((piece.row, piece.col), (5, 3));
}

#[test]
fn hard_drop_locks_at_lowest_fit() {
    let mut matrix = empty_matrix(10, 20);
    let mut piece = piece_of('T', 0, 3);
    piece.hard_drop(&mut matrix);
    assert_eq!(piece.row, 18);
    assert_eq!(matrix[18][4], PieceColor::Purple);
    assert_eq!(matrix[19][3], PieceColor::Purple);
    assert_eq!(matrix[19][4], PieceColor::Purple);
    assert_eq!(matrix[19][5], PieceColor::Purple);
    let occupied: usize =
        matrix.iter().map(|r| r.iter().filter(|c| **c != PieceColor::Empty).count()).sum();
    assert_eq!(occupied, 4);
}

#[test]
fn lock_writes_colour_only_on_covered_cells() {
    let mut matrix = empty_matrix(10, 20);
    let piece = piece_of('O', 4, 2);
    piece.lock(&mut matrix);
    assert_eq!(matrix[4][3], PieceColor::Yellow);
    assert_eq!(matrix[4][4], PieceColor::Yellow);
    assert_eq!(matrix[5][3], PieceColor::Yellow);
    assert_eq!(matrix[5][4], PieceColor::Yellow);
    assert_eq!(matrix[4][2], PieceColor::Empty);
}

#[test]
fn read_inputs_priorities() {
    let mut input = idle_input();
    input.hard_drop = true;
    input.left = true;
    assert_eq!(read_inputs(&input).0, MovementAction::HardDrop);

    let mut input = idle_input();
    input.left = true;
    input.right = true;
    assert_eq!(read_inputs(&input).0, MovementAction::NoAction);

    let mut input = idle_input();
    input.soft_drop = true;
    input.right = true;
    assert_eq!(read_inputs(&input).0, MovementAction::SoftDrop);

    let mut input = idle_input();
    input.right = true;
    assert_eq!(read_inputs(&input).0, MovementAction::Right);

    let mut input = idle_input();
    input.rot_ccw = true;
    assert_eq!(read_inputs(&input).1, RotationAction::RotateCCW);

    // fixed rotation priority when several flags are set at once:
    // clockwise beats counterclockwise, which beats the half turn
    let mut input = idle_input();
    input.rot_cw = true;
    input.rot_ccw = true;
    input.rot_180 = true;
    assert_eq!(read_inputs(&input).1, RotationAction::RotateCW);

    let mut input = idle_input();
    input.rot_ccw = true;
    input.rot_180 = true;
    assert_eq!(read_inputs(&input).1, RotationAction::RotateCCW);
}

#[test]
fn gravity_moves_piece_down_once_per_interval_until_lock() {
    let mut game = Game::new(10, 20);
    let mut input = idle_input();
    let mut prev_row = game.piece.row;
    assert_eq!(prev_row, 0);
    let mut locked = false;
    for _ in 0..25 {
        // one gravity interval plus a millisecond, so that the timer
        // strictly exceeds the interval and exactly one step happens
        game.update(&mut input, 251);
        if game.piece.row == prev_row + 1 {
            prev_row = game.piece.row;
        } else {
            // the piece landed: it locked into the matrix and a fresh
            // piece spawned at the top
            assert_eq!(game.piece.row, 0);
            let occupied: usize = game
                .matrix
                .iter()
                .map(|r| r.iter().filter(|c| **c != PieceColor::Empty).count())
                .sum();
            assert!(occupied > 0);
            locked = true;
            break;
        }
    }
    assert!(locked);
}

#[test]
fn quiet_update_leaves_state_alone() {
    let mut game = Game::new(10, 20);
    let mut input = idle_input();
    let piece_row = game.piece.row;
    let piece_col = game.piece.col;
    game.update(&mut input, 100);
    assert_eq!(game.gravity_timer, 100);
    assert_eq!(game.piece.row, piece_row);
    assert_eq!(game.piece.col, piece_col);
    let occupied: usize =
        game.matrix.iter().map(|r| r.iter().filter(|c| **c != PieceColor::Empty).count()).sum();
    assert_eq!(occupied, 0);
}

#[test]
fn held_left_with_zero_arr_moves_to_the_wall_in_one_update() {
    let mut game = Game::new(10, 20);
    game.piece = piece_of('T', 5, 4);
    let mut input = idle_input();
    input.left = true;
    input.left_held = 200;
    game.update(&mut input, 50);
    // held time exceeds DAS and ARR is 0: the piece repeats left until
    // blocked by the wall within this single update
    assert_eq!(game.piece.col, 0);
    assert_eq!(game.piece.row, 5);
}

#[test]
fn held_right_with_zero_arr_moves_to_the_wall_in_one_update() {
    let mut game = Game::new(10, 20);
    game.piece = piece_of('2', 5, 4);
    let mut input = idle_input();
    input.right = true;
    input.right_held = 150;
    game.update(&mut input, 40);
    // the domino in rotation 0 covers columns col..=col+1
    assert_eq!(game.piece.col, 8);
}

#[test]
fn first_held_frame_moves_exactly_one_step() {
    let mut game = Game::new(10, 20);
    game.piece = piece_of('T', 5, 4);
    let mut input = idle_input();
    input.left = true;
    input.left_held = 30;
    // time_held == elapsed marks the press frame; held time is still
    // below DAS, so only the immediate single step happens
    game.update(&mut input, 30);
    assert_eq!(game.piece.col, 3);
}

#[test]
fn hard_drop_input_is_consumed_and_spawns_next_piece() {
    let mut game = Game::new(10, 20);
    let mut input = idle_input();
    input.hard_drop = true;
    game.update(&mut input, 10);
    assert!(!input.hard_drop);
    assert_eq!(game.piece.row, 0);
    let occupied: usize =
        game.matrix.iter().map(|r| r.iter().filter(|c| **c != PieceColor::Empty).count()).sum();
    assert!(occupied >= 2);
}

#[test]
fn rotation_inputs_are_consumed() {
    let mut game = Game::new(10, 20);
    game.piece = piece_of('T', 5, 4);
    let mut input = idle_input();
    input.rot_cw = true;
    game.update(&mut input, 10);
    assert!(!input.rot_cw);
    assert_eq!(game.piece.rotation, 1);

    let mut input = idle_input();
    input.rot_180 = true;
    game.update(&mut input, 10);
    assert!(!input.rot_180);
    assert_eq!(game.piece.rotation, 3);

    let mut input = idle_input();
    input.rot_ccw = true;
    game.update(&mut input, 10);
    assert!(!input.rot_ccw);
    assert_eq!(game.piece.rotation, 2);
}

#[test]
fn held_time_at_das_threshold_does_not_auto_repeat() {
    let mut game = Game::new(10, 20);
    game.piece = piece_of('T', 5, 4);
    let mut input = idle_input();
    input.left = true;
    // held exactly the DAS threshold: auto-repeat needs strictly more,
    // and this is not the press frame either, so nothing moves
    input.left_held = 100;
    game.update(&mut input, 50);
    assert_eq!(game.piece.col, 4);

    input.left_held = 101;
    game.update(&mut input, 50);
    assert_eq!(game.piece.col, 0);
}

#[test]
fn soft_drop_is_read_but_has_no_effect() {
    let mut game = Game::new(10, 20);
    game.piece = piece_of('T', 5, 4);
    let mut input = idle_input();
    input.soft_drop = true;
    game.update(&mut input, 10);
    assert_eq!((game.piece.row, game.piece.col, game.piece.rotation), (5, 4, 0));
    assert!(input.soft_drop);
}

#[test]
fn exact_interval_calls_fall_from_the_second_call_on() {
    let mut game = Game::new(10, 20);
    game.piece = piece_of('T', 0, 3);
    let mut input = idle_input();
    // the timer must strictly exceed the interval before a step
    // happens, so the first exact-interval call banks the time and the
    // descent starts on the second call, one row per call
    game.update(&mut input, 250);
    assert_eq!(game.piece.row, 0);
    game.update(&mut input, 250);
    assert_eq!(game.piece.row, 1);
    game.update(&mut input, 250);
    assert_eq!(game.piece.row, 2);
}

#[test]
fn one_update_consumes_every_whole_gravity_interval() {
    let mut game = Game::new(10, 20);
    game.piece = piece_of('T', 0, 3);
    let mut input = idle_input();
    // 502 ms: two intervals of 250 ms are consumed, 2 ms stay banked
    game.update(&mut input, 502);
    assert_eq!(game.piece.row, 2);
    assert_eq!(game.gravity_timer, 2);
}

#[test]
fn new_game_has_empty_matrix_of_requested_size() {
    let game = Game::new(12, 22);
    assert_eq!(game.matrix.len(), 22);
    for row in game.matrix.iter() {
        assert_eq!(row.len(), 12);
        for cell in row.iter() {
            assert_eq!(*cell, PieceColor::Empty);
        }
    }
    assert_eq!(game.piece.row, 0);
    assert_eq!(game.piece.col, 3);
    assert_eq!(game.piece.rotation, 0);
    assert_eq!(game.bag.len(), 3);
}
