use qlearn_tictactoe::board::Board;
use qlearn_tictactoe::policy::{choose_action, greedy_index};

#[test]
fn greedy_takes_last_of_equal_maxima() {
    assert_eq!(greedy_index(&vec![3, 5, 5, 1]), 2);
    assert_eq!(greedy_index(&vec![0, 0, 0]), 2);
    assert_eq!(greedy_index(&vec![9, 1, 2]), 0);
    assert_eq!(greedy_index(&vec![7]), 0);
}

#[test]
fn training_agent_always_blocks() {
    let moves = vec![(0, 2), (1, 1), (2, 0)];
    for explore in [false, true] {
        for values in [None, Some(vec![9, 100, 3])] {
            let r = choose_action(&moves, Some((0, 2)), true, explore, values);
            assert_eq!(r, ((0, 2), true, false));
        }
    }
}

#[test]
fn playing_agent_ignores_block() {
    let moves = vec![(0, 2), (1, 1), (2, 0)];
    let r = choose_action(&moves, Some((0, 2)), false, true, Some(vec![1, 5, 2]));
    assert_eq!(r, ((1, 1), false, false));
}

#[test]
fn exploration_picks_a_legal_move() {
    let moves = vec![(0, 1), (2, 2)];
    for _ in 0..50 {
        let (m, forced, explored) = choose_action(&moves, None, true, true, Some(vec![4, 1]));
        assert!(moves.contains(&m));
        assert!(!forced);
        assert!(explored);
    }
}

#[test]
fn exploitation_takes_best_value() {
    let moves = vec![(0, 0), (1, 1), (2, 2)];
    let r = choose_action(&moves, None, true, false, Some(vec![1, 8, 8]));
    assert_eq!(r, ((2, 2), false, false));
}

#[test]
fn fresh_state_falls_back_to_random_legal_move() {
    let b = Board::new();
    let moves = b.available_moves();
    assert_eq!(moves.len(), 9);
    let mut seen = Vec::new();
    for _ in 0..400 {
        let (m, forced, explored) = choose_action(&moves, b.find_blocking_move(), false, false, None);
        assert!(moves.contains(&m));
        assert!(!forced && !explored);
        if !seen.contains(&m) {
            seen.push(m);
        }
    }
    assert!(seen.len() > 1);
}
