use tetris::game::Tetris;
use tetris::tetriminos::{
    Tetrimino, TetriminoGenerator, TetriminoI, TetriminoJ, TetriminoL, TetriminoO, TetriminoS,
    TetriminoT, TetriminoZ,
};

fn empty_map() -> Vec<Vec<u8>> {
    Tetris::new().game_map
}

#[test]
fn catalog_shapes() {
    let i = TetriminoI::new();
    assert_eq!(i.states.len(), 2);
    assert_eq!(i.x, 4);
    assert_eq!(i.y, 0);
    assert_eq!(i.current_state, 0);
    assert_eq!(i.states[0][0], vec![1, 1, 1, 1]);
    assert_eq!(i.states[0][1], vec![0, 0, 0, 0]);
    assert_eq!(i.states[1][0], vec![0, 1, 0, 0]);

    let j = TetriminoJ::new();
    assert_eq!(j.states.len(), 4);
    assert_eq!(j.x, 4);
    assert_eq!(j.states[0][0], vec![2, 2, 2, 0]);
    assert_eq!(j.states[0][1], vec![2, 0, 0, 0]);

    let l = TetriminoL::new();
    assert_eq!(l.states.len(), 4);
    assert_eq!(l.states[0][0], vec![3, 3, 3, 0]);
    assert_eq!(l.states[0][1], vec![0, 0, 3, 0]);

    let o = TetriminoO::new();
    assert_eq!(o.states.len(), 1);
    assert_eq!(o.x, 5);
    assert_eq!(o.states[0][0], vec![4, 4, 0, 0]);
    assert_eq!(o.states[0][1], vec![4, 4, 0, 0]);

    let s = TetriminoS::new();
    assert_eq!(s.states.len(), 2);
    assert_eq!(s.states[0][0], vec![0, 5, 5, 0]);
    assert_eq!(s.states[0][1], vec![5, 5, 0, 0]);

    let z = TetriminoZ::new();
    assert_eq!(z.states.len(), 2);
    assert_eq!(z.states[0][0], vec![6, 6, 0, 0]);
    assert_eq!(z.states[0][1], vec![0, 6, 6, 0]);

    let t = TetriminoT::new();
    assert_eq!(t.states.len(), 4);
    assert_eq!(t.states[0][0], vec![7, 7, 7, 0]);
    assert_eq!(t.states[0][1], vec![0, 7, 0, 0]);
}

#[test]
fn legality_on_empty_board() {
    let map = empty_map();
    let i = TetriminoI::new();
    assert!(i.test_position(&map, 0, 4, 0));
    assert!(i.test_current_position(&map));
    assert!(i.test_position(&map, 0, 0, 15));
    assert!(i.test_position(&map, 0, 6, 3));
}

#[test]
fn legality_rejects_out_of_bounds() {
    let map = empty_map();
    let i = TetriminoI::new();
    // Horizontal I fills columns x..x+3: one column past either wall fails.
    assert!(!i.test_position(&map, 0, -1, 0));
    assert!(!i.test_position(&map, 0, 7, 0));
    // Vertical I fills rows y..y+3 of column x+1: past the floor fails.
    assert!(!i.test_position(&map, 1, 4, 13));
    assert!(i.test_position(&map, 1, 4, 12));
}

#[test]
fn empty_mask_columns_may_hang_over_the_edge() {
    let map = empty_map();
    let i = TetriminoI::new();
    // The vertical I only fills mask column 1, so the mask's empty first
    // column may sit at column -1 and its empty tail past the right wall.
    assert!(i.test_position(&map, 1, -1, 0));
    assert!(i.test_position(&map, 1, 8, 0));
    assert!(!i.test_position(&map, 1, -2, 0));
    assert!(!i.test_position(&map, 1, 9, 0));
}

#[test]
fn legality_rejects_occupied_cells() {
    let mut map = empty_map();
    map[0][5] = 3;
    let i = TetriminoI::new();
    // Horizontal I at (4, 0) covers column 5 of row 0, which is occupied.
    assert!(!i.test_position(&map, 0, 4, 0));
    // One row lower is free.
    assert!(i.test_position(&map, 0, 4, 1));
}

#[test]
fn change_position_commits_only_legal_moves() {
    let map = empty_map();
    let mut i = TetriminoI::new();
    assert!(i.change_position(&map, 3, 5));
    assert_eq!((i.x, i.y), (3, 5));
    // Past the right wall: rejected, piece untouched.
    assert!(!i.change_position(&map, 7, 5));
    assert_eq!((i.x, i.y), (3, 5));
    assert_eq!(i.current_state, 0);
}

#[test]
fn rotate_steps_and_wraps() {
    let map = empty_map();
    let mut t = TetriminoT::new();
    for expected in [1u8, 2, 3, 0, 1] {
        t.rotate(&map);
        assert_eq!(t.current_state, expected);
        assert_eq!(t.x, 4);
        assert_eq!(t.y, 0);
    }
}

#[test]
fn rotate_kicks_off_the_wall() {
    let map = empty_map();
    let mut i = TetriminoI::new();
    // Vertical I hugging the right wall (mask column 1 at column 9).
    i.current_state = 1;
    i.x = 8;
    i.y = 0;
    // Rotating to horizontal needs columns x..x+3 free: kicks 0, -1, +1 all
    // stick out past the wall; the first legal kick is -2.
    i.rotate(&map);
    assert_eq!(i.current_state, 0);
    assert_eq!(i.x, 6);
    assert_eq!(i.y, 0);
}

#[test]
fn rotate_blocked_is_a_silent_no_op() {
    let mut map = empty_map();
    for row in map.iter_mut() {
        for cell in row.iter_mut() {
            *cell = 2;
        }
    }
    let mut i = TetriminoI::new();
    i.y = 5;
    let before = (i.x, i.y, i.current_state);
    i.rotate(&map);
    assert_eq!((i.x, i.y, i.current_state), before);
}

#[test]
fn rotation_state_counts_follow_the_catalog() {
    let map = empty_map();
    // O has a single state: rotating it commits the identity kick and
    // changes nothing.
    let mut o = TetriminoO::new();
    o.rotate(&map);
    assert_eq!(o.current_state, 0);
    assert_eq!(o.x, 5);
    let mut s = TetriminoS::new();
    s.rotate(&map);
    s.rotate(&map);
    assert_eq!(s.current_state, 0);
    let piece: Tetrimino = TetriminoZ::new();
    assert_eq!(piece.states.len(), 2);
}
