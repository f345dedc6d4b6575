use tetris::config::{level_lines, level_time};
use tetris::game::Tetris;
use tetris::tetriminos::{TetriminoGenerator, TetriminoI, TetriminoO};

#[test]
fn level_tables_match_the_rules() {
    let times = [1000, 850, 700, 600, 500, 400, 300, 250, 221, 190];
    let lines = [20, 40, 60, 80, 100, 120, 140, 160, 180, 200];
    for level in 1..=10u32 {
        assert_eq!(level_time(level), times[level as usize - 1]);
        assert_eq!(level_lines(level), lines[level as usize - 1]);
    }
}

#[test]
fn new_session_is_empty() {
    let t = Tetris::new();
    assert_eq!(t.game_map.len(), 16);
    for row in &t.game_map {
        assert_eq!(row, &vec![0u8; 10]);
    }
    assert_eq!(t.current_level, 1);
    assert_eq!(t.score, 0);
    assert_eq!(t.nb_lines, 0);
    assert!(t.current_piece.is_none());
}

#[test]
fn update_score_accumulates() {
    let mut t = Tetris::new();
    t.update_score(10);
    t.update_score(5);
    assert_eq!(t.score, 15);
}

#[test]
fn time_over_follows_the_level_table() {
    let mut t = Tetris::new();
    assert!(!t.is_time_over(1000));
    assert!(t.is_time_over(1001));
    t.current_level = 2;
    assert!(!t.is_time_over(850));
    assert!(t.is_time_over(851));
    t.current_level = 10;
    assert!(!t.is_time_over(190));
    assert!(t.is_time_over(191));
}

#[test]
fn line_count_21_reaches_level_2_exactly_once() {
    let mut t = Tetris::new();
    t.nb_lines = 19;
    t.increase_line();
    // 20 lines does not pass the level-1 threshold of 20.
    assert_eq!(t.nb_lines, 20);
    assert_eq!(t.current_level, 1);
    t.increase_line();
    // The 21st line passes it: level 2, exactly one step.
    assert_eq!(t.nb_lines, 21);
    assert_eq!(t.current_level, 2);
    t.increase_line();
    assert_eq!(t.current_level, 2);
}

#[test]
fn clearing_one_full_row_scores_one_point_at_level_1() {
    let mut t = Tetris::new();
    for x in 0..10 {
        t.game_map[15][x] = 3;
    }
    t.check_lines();
    assert_eq!(t.score, 1);
    assert_eq!(t.nb_lines, 1);
    assert_eq!(t.game_map.len(), 16);
    for row in &t.game_map {
        assert_eq!(row, &vec![0u8; 10]);
    }
}

#[test]
fn clearing_keeps_unfinished_rows_in_order() {
    let mut t = Tetris::new();
    for x in 0..10 {
        t.game_map[13][x] = 1;
        t.game_map[15][x] = 2;
    }
    t.game_map[14][0] = 7;
    t.check_lines();
    assert_eq!(t.score, 2);
    assert_eq!(t.nb_lines, 2);
    assert_eq!(t.game_map.len(), 16);
    // The incomplete row drops to the bottom; everything above is empty.
    assert_eq!(t.game_map[15][0], 7);
    for x in 1..10 {
        assert_eq!(t.game_map[15][x], 0);
    }
    for y in 0..15 {
        assert_eq!(t.game_map[y], vec![0u8; 10]);
    }
}

#[test]
fn emptying_the_whole_field_earns_the_flat_bonus() {
    let mut t = Tetris::new();
    for y in 0..16 {
        for x in 0..10 {
            t.game_map[y][x] = 5;
        }
    }
    t.check_lines();
    // 16 rows at level 1 plus the 1000-point full-clear bonus.
    assert_eq!(t.score, 1016);
    assert_eq!(t.nb_lines, 16);
    assert_eq!(t.current_level, 1);
    assert_eq!(t.game_map.len(), 16);
}

#[test]
fn four_cleared_rows_earn_no_bonus_when_rows_remain() {
    let mut t = Tetris::new();
    t.game_map[11][3] = 4;
    for y in 12..16 {
        for x in 0..10 {
            t.game_map[y][x] = 5;
        }
    }
    t.check_lines();
    // Four rows at level 1 and no full-clear bonus: a row survived.
    assert_eq!(t.score, 4);
    assert_eq!(t.nb_lines, 4);
    assert_eq!(t.game_map[15][3], 4);
}

#[test]
fn locking_writes_the_mask_and_scores_the_level() {
    let mut t = Tetris::new();
    let mut piece = TetriminoI::new();
    piece.x = 0;
    piece.y = 15;
    t.current_piece = Some(piece);
    t.make_permanent();
    assert!(t.current_piece.is_none());
    assert_eq!(t.score, 1);
    for x in 0..4 {
        assert_eq!(t.game_map[15][x], 1);
    }
    for x in 4..10 {
        assert_eq!(t.game_map[15][x], 0);
    }
}

#[test]
fn locking_drops_cells_below_the_field() {
    let mut t = Tetris::new();
    let mut piece = TetriminoI::new();
    // Vertical I at rows 14..18 of column 1: only rows 14 and 15 exist.
    piece.current_state = 1;
    piece.x = 0;
    piece.y = 14;
    t.current_piece = Some(piece);
    t.make_permanent();
    assert_eq!(t.game_map.len(), 16);
    assert_eq!(t.game_map[14][1], 1);
    assert_eq!(t.game_map[15][1], 1);
    for y in 0..14 {
        assert_eq!(t.game_map[y], vec![0u8; 10]);
    }
}

#[test]
fn locking_without_a_piece_only_runs_the_clear_pass() {
    let mut t = Tetris::new();
    t.make_permanent();
    assert_eq!(t.score, 0);
    assert_eq!(t.nb_lines, 0);
    assert_eq!(t.game_map.len(), 16);
}

#[test]
fn lock_completing_a_row_clears_it() {
    let mut t = Tetris::new();
    for x in 4..10 {
        t.game_map[15][x] = 2;
    }
    let mut piece = TetriminoI::new();
    piece.x = 0;
    piece.y = 15;
    t.current_piece = Some(piece);
    t.make_permanent();
    // One point for the lock, one for the cleared line.
    assert_eq!(t.score, 2);
    assert_eq!(t.nb_lines, 1);
    for row in &t.game_map {
        assert_eq!(row, &vec![0u8; 10]);
    }
}

#[test]
fn gravity_moves_down_then_locks() {
    let mut t = Tetris::new();
    let mut piece = TetriminoI::new();
    piece.current_state = 1;
    t.current_piece = Some(piece);
    t.apply_gravity();
    assert_eq!(t.current_piece.as_ref().unwrap().y, 1);
    // Resting on the floor: rows 12..16 of column 5.
    t.current_piece.as_mut().unwrap().y = 12;
    t.apply_gravity();
    assert!(t.current_piece.is_none());
    assert_eq!(t.score, 1);
    assert_eq!(t.game_map[15][5], 1);
    assert_eq!(t.game_map[12][5], 1);
}

#[test]
fn failed_sideways_move_is_a_no_op() {
    let mut t = Tetris::new();
    let mut piece = TetriminoI::new();
    piece.x = 6;
    t.current_piece = Some(piece);
    // One more column to the right would stick out of the field.
    t.apply_move(7, 0);
    let p = t.current_piece.as_ref().unwrap();
    assert_eq!((p.x, p.y), (6, 0));
    assert_eq!(t.score, 0);
}

#[test]
fn failed_downward_bump_locks_at_once() {
    let mut t = Tetris::new();
    let mut piece = TetriminoI::new();
    piece.x = 0;
    piece.y = 15;
    t.current_piece = Some(piece);
    t.apply_move(0, 16);
    assert!(t.current_piece.is_none());
    assert_eq!(t.score, 1);
    assert_eq!(t.game_map[15][0], 1);
}

#[test]
fn session_rotate_matches_piece_rotate() {
    let mut t = Tetris::new();
    t.current_piece = Some(TetriminoI::new());
    t.try_rotate();
    let p = t.current_piece.as_ref().unwrap();
    assert_eq!(p.current_state, 1);
    assert_eq!(p.x, 4);
    let mut blocked = Tetris::new();
    blocked.try_rotate();
    assert!(blocked.current_piece.is_none());
}

#[test]
fn hard_drop_falls_to_the_floor_and_locks() {
    let mut t = Tetris::new();
    t.current_piece = Some(TetriminoO::new());
    t.hard_drop();
    assert!(t.current_piece.is_none());
    assert_eq!(t.score, 1);
    assert_eq!(t.game_map[14][5], 4);
    assert_eq!(t.game_map[14][6], 4);
    assert_eq!(t.game_map[15][5], 4);
    assert_eq!(t.game_map[15][6], 4);
}

#[test]
fn full_row_built_from_hard_dropped_i_pieces_clears() {
    let mut t = Tetris::new();
    // Two horizontal I pieces fill columns 0..8 of the bottom row.
    let mut left = TetriminoI::new();
    left.x = 0;
    t.current_piece = Some(left);
    t.hard_drop();
    let mut mid = TetriminoI::new();
    mid.x = 4;
    t.current_piece = Some(mid);
    t.hard_drop();
    // Two vertical I pieces fill the remaining columns 8 and 9.
    let mut col8 = TetriminoI::new();
    col8.current_state = 1;
    col8.x = 7;
    t.current_piece = Some(col8);
    t.hard_drop();
    assert_eq!(t.nb_lines, 0);
    let mut col9 = TetriminoI::new();
    col9.current_state = 1;
    col9.x = 8;
    t.current_piece = Some(col9);
    t.hard_drop();
    // The bottom row completed and was cleared; the board is back to 16 rows
    // with the leftover vertical stubs compacted one row down.
    assert_eq!(t.nb_lines, 1);
    assert_eq!(t.score, 5);
    assert_eq!(t.game_map.len(), 16);
    for row in &t.game_map {
        assert_eq!(row.len(), 10);
    }
    for x in 0..8 {
        assert_eq!(t.game_map[15][x], 0);
    }
    assert_eq!(t.game_map[15][8], 1);
    assert_eq!(t.game_map[15][9], 1);
    assert_eq!(t.game_map[13][8], 1);
    assert_eq!(t.game_map[12][8], 0);
}
