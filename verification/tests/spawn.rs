use tetris::game::Tetris;
use tetris::spawner::{pick_kind, Spawner};

#[test]
fn pick_takes_the_first_draw_when_it_differs() {
    // 10 % 7 == 3, which differs from the previous kind 2.
    assert_eq!(pick_kind(2, 10, 20), 3);
    assert_eq!(pick_kind(0, 6, 6), 6);
}

#[test]
fn pick_redraws_on_a_repeat() {
    // 10 % 7 == 3 repeats the previous kind, so the second draw decides:
    // 20 % 7 == 6.
    assert_eq!(pick_kind(3, 10, 20), 6);
}

#[test]
fn pick_repeat_needs_both_draws_to_match() {
    // The soft guarantee: the result only repeats the previous kind when the
    // mandatory re-draw also happens to match it. 17 % 7 == 3.
    assert_eq!(pick_kind(3, 10, 17), 3);
    for first in 0..=255u8 {
        for second in 0..=255u8 {
            let k = pick_kind(4, first, second);
            assert!(k < 7);
            if k == 4 {
                assert_eq!(first % 7, 4);
                assert_eq!(second % 7, 4);
            }
        }
    }
}

#[test]
fn spawner_remembers_its_last_kind() {
    let mut s = Spawner::new();
    assert_eq!(s.prev_kind, 7);
    for _ in 0..50 {
        let k = s.next_kind();
        assert!(k < 7);
        assert_eq!(s.prev_kind, k);
    }
}

#[test]
fn session_spawns_catalog_pieces() {
    let mut t = Tetris::new();
    for _ in 0..50 {
        let piece = t.create_new_tetrimino();
        assert!(t.spawner.prev_kind < 7);
        assert_eq!(piece.y, 0);
        assert_eq!(piece.current_state, 0);
        assert!(piece.x == 4 || piece.x == 5);
        assert!(matches!(piece.states.len(), 1 | 2 | 4));
        let color = t.spawner.prev_kind + 1;
        // Every filled cell of every state carries the kind's color class.
        for state in &piece.states {
            assert_eq!(state.len(), 4);
            for row in state {
                assert_eq!(row.len(), 4);
                for &cell in row {
                    assert!(cell == 0 || cell == color);
                }
            }
        }
    }
}
