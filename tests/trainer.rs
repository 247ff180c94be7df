use qlearn_tictactoe::board::Cell;
use qlearn_tictactoe::trainer::{action_key, reward_for, Episode, Reward};
use qlearn_tictactoe::board::Board;

#[test]
fn action_keys_are_row_comma_col() {
    assert_eq!(action_key((0, 2)), "0,2");
    assert_eq!(action_key((2, 1)), "2,1");
    assert_eq!(action_key((1, 1)), "1,1");
}

#[test]
fn rewards_by_outcome() {
    let won = Board::from_cells([Cell::X, Cell::X, Cell::X, Cell::O, Cell::O, Cell::Empty, Cell::Empty, Cell::Empty, Cell::Empty], 1);
    assert_eq!(reward_for(Cell::X, &won, true, 5), Reward::Win);
    assert_eq!(reward_for(Cell::O, &won, false, 5), Reward::Nothing);
    let open = Board::from_cells([Cell::X, Cell::Empty, Cell::Empty, Cell::Empty, Cell::O, Cell::Empty, Cell::Empty, Cell::Empty, Cell::Empty], 0);
    assert_eq!(reward_for(Cell::O, &open, true, 8), Reward::EarlyBlock);
    assert_eq!(reward_for(Cell::O, &open, true, 6), Reward::EarlyBlock);
    assert_eq!(reward_for(Cell::O, &open, true, 5), Reward::LateBlock);
    assert_eq!(reward_for(Cell::O, &open, false, 8), Reward::Nothing);
    let drawn = Board::from_cells([Cell::X, Cell::O, Cell::X, Cell::X, Cell::O, Cell::O, Cell::O, Cell::X, Cell::X], 1);
    assert_eq!(reward_for(Cell::X, &drawn, false, 1), Reward::Draw);
    assert_eq!(reward_for(Cell::X, &drawn, true, 1), Reward::LateBlock);
}

#[test]
fn episode_records_each_move() {
    let mut ep = Episode::with_first_mover(0);
    assert!(!ep.is_over());
    let t = ep.play((1, 1), false);
    assert_eq!(t.state, "---------");
    assert_eq!(t.action, "1,1");
    assert_eq!(t.next_state, "----X----");
    assert_eq!(t.reward, Reward::Nothing);
    let t = ep.play((0, 0), true);
    assert_eq!(t.state, "----X----");
    assert_eq!(t.next_state, "O---X----");
    assert_eq!(t.reward, Reward::EarlyBlock);
    assert_eq!(ep.board().get_current_player().marker, Cell::X);
}

#[test]
fn episode_move_to_occupied_cell_is_recorded_but_not_placed() {
    let mut ep = Episode::with_first_mover(1);
    ep.play((0, 0), false);
    let t = ep.play((0, 0), false);
    assert_eq!(t.state, "O--------");
    assert_eq!(t.next_state, "O--------");
    assert_eq!(ep.board().get_current_player().marker, Cell::X);
}

#[test]
fn drawn_episode_rewards_last_move_and_gives_no_bonus() {
    let mut ep = Episode::with_first_mover(0);
    let plays = [(0, 0), (0, 1), (0, 2), (1, 1), (1, 0), (1, 2), (2, 1), (2, 0)];
    for p in plays {
        let t = ep.play(p, false);
        assert_eq!(t.reward, Reward::Nothing);
        assert!(!ep.is_over());
    }
    let t = ep.play((2, 2), false);
    assert_eq!(t.next_state, "XOXXOOOXX");
    assert_eq!(t.reward, Reward::Draw);
    assert!(ep.is_over());
    assert!(ep.board().is_draw());
    assert_eq!(ep.board().check_winner(), None);
    assert!(ep.finish().is_none());
}

#[test]
fn won_episode_hands_back_bonus() {
    let mut ep = Episode::with_first_mover(0);
    for p in [(0, 0), (1, 0), (0, 1), (1, 1)] {
        ep.play(p, false);
    }
    let t = ep.play((0, 2), false);
    assert_eq!(t.reward, Reward::Win);
    assert!(ep.is_over());
    let bonus = ep.finish().unwrap();
    assert_eq!(bonus.action, "1,1");
    let steps: Vec<(&str, &str)> = bonus.steps.iter().map(|(a, b)| (a.as_str(), b.as_str())).collect();
    assert_eq!(
        steps,
        vec![
            ("---------", "X--------"),
            ("X--------", "X--O-----"),
            ("X--O-----", "XX-O-----"),
            ("XX-O-----", "XX-OO----"),
        ]
    );
}

#[test]
fn fresh_episode_is_empty() {
    let ep = Episode::new();
    assert_eq!(ep.board().board_state(), "---------");
    assert!(!ep.is_over());
}
