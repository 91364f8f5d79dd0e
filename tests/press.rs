use relaybot::games::{Player, TicTacToe, SYMBOL_FIRST};
use relaybot::manager::GameManager;
use relaybot::press::{board_to_buttons, parse_press, press_data, Outcome, Press, PressData};

fn manager_with_game(players: Vec<Player>) -> (GameManager, i32) {
    let mut m = GameManager::new();
    let id = m.new_id();
    let mut ttt = TicTacToe::new(id, players);
    ttt.generate_board(3..=3);
    m.add_game(ttt.into_game());
    (m, id)
}

fn at(game_id: i32, column: usize, row: usize) -> PressData {
    PressData { game_id, column, row }
}

#[test]
fn callback_data_round_trip() {
    let text = press_data(7, 1, 2);
    assert_eq!(text, "ttt 7 1 2");
    assert_eq!(parse_press(&text), Some(at(7, 1, 2)));
    assert_eq!(parse_press("ttt 2147483647 0 10"), Some(at(i32::MAX, 0, 10)));
}

#[test]
fn malformed_callback_data_is_refused() {
    for bad in ["", "ttt", "ttt 7 1", "ttt 7 1 2 ", "tttt 7 1 2", "ttt 07 1 2", "ttt -7 1 2", "ttt 7  1 2",
        "ttt 2147483648 0 0", "ttt 7 x 2", "xyz 7 1 2"] {
        assert_eq!(parse_press(bad), None, "{}", bad);
    }
}

#[test]
fn buttons_show_cells_and_carry_their_press() {
    let board = vec![vec!['a', 'b'], vec!['c', 'd']];
    let kb = board_to_buttons(board, 3);
    assert_eq!(kb.len(), 2);
    assert_eq!(kb[1][0].text(), "c");
    assert_eq!(kb[1][0].data(), "ttt 3 1 0");
    assert_eq!(kb[0][1].data(), "ttt 3 0 1");
}

#[test]
fn press_on_unknown_game() {
    let (mut m, id) = manager_with_game(vec![Player::new(1, "Ann".to_string())]);
    assert!(matches!(m.press(at(id + 1, 0, 0), Player::new(1, "Ann".to_string())), Press::GameNotFound));
}

#[test]
fn stranger_cannot_join_full_game() {
    let (mut m, id) = manager_with_game(vec![Player::new(1, "Ann".to_string()), Player::new(2, "Bob".to_string())]);
    assert!(matches!(m.press(at(id, 0, 0), Player::new(3, "Cid".to_string())), Press::NotInGame));
    assert!(!m.get_game(id).unwrap().has_player(3));
}

#[test]
fn stranger_joins_free_seat() {
    let (mut m, id) = manager_with_game(vec![Player::new(1, "Ann".to_string())]);
    match m.press(at(id, 0, 0), Player::new(2, "Bob".to_string())) {
        Press::Joined(g) => {
            assert!(g.has_player(2));
            assert_eq!(g.board()[0][0], relaybot::games::EMPTY_CELL);
        }
        _ => panic!("expected a join"),
    }
    assert!(m.get_game(id).unwrap().has_player(2));
}

#[test]
fn out_of_turn_press_is_refused() {
    let (mut m, id) = manager_with_game(vec![Player::new(1, "Ann".to_string()), Player::new(2, "Bob".to_string())]);
    let before = m.get_game(id).unwrap().board();
    assert!(matches!(m.press(at(id, 0, 0), Player::new(2, "Bob".to_string())), Press::NotYourTurn));
    assert_eq!(m.get_game(id).unwrap().board(), before);
}

#[test]
fn occupied_cell_press_is_refused() {
    let (mut m, id) = manager_with_game(vec![Player::new(1, "Ann".to_string()), Player::new(2, "Bob".to_string())]);
    assert!(matches!(m.press(at(id, 1, 1), Player::new(1, "Ann".to_string())), Press::Moved { .. }));
    let before = m.get_game(id).unwrap().board();
    assert!(matches!(
        m.press(at(id, 1, 1), Player::new(2, "Bob".to_string())),
        Press::OccupiedCell { joined: false }
    ));
    assert_eq!(m.get_game(id).unwrap().board(), before);
}

#[test]
fn winning_press_removes_the_game() {
    let (mut m, id) = manager_with_game(vec![Player::new(1, "Ann".to_string()), Player::new(2, "Bob".to_string())]);
    let ann = || Player::new(1, "Ann".to_string());
    let bob = || Player::new(2, "Bob".to_string());
    assert!(matches!(m.press(at(id, 0, 0), ann()), Press::Moved { outcome: Outcome::Continues, .. }));
    assert!(matches!(m.press(at(id, 1, 1), bob()), Press::Moved { .. }));
    assert!(matches!(m.press(at(id, 0, 1), ann()), Press::Moved { .. }));
    assert!(matches!(m.press(at(id, 2, 2), bob()), Press::Moved { .. }));
    match m.press(at(id, 0, 2), ann()) {
        Press::Moved { joined, game, outcome } => {
            assert!(!joined);
            assert!(game.is_over());
            assert!(matches!(outcome, Outcome::YouWin));
            assert_eq!(game.board()[0], vec![SYMBOL_FIRST; 3]);
        }
        _ => panic!("expected a move"),
    }
    assert!(m.get_game(id).is_none());
}

#[test]
fn draw_press_reports_draw() {
    let (mut m, id) = manager_with_game(vec![Player::new(1, "Ann".to_string()), Player::new(2, "Bob".to_string())]);
    let moves = [(0, 0), (1, 0), (2, 0), (1, 1), (0, 1), (2, 1), (1, 2), (0, 2), (2, 2)];
    for (i, (c, r)) in moves.iter().enumerate() {
        let p = if i % 2 == 0 { Player::new(1, "Ann".to_string()) } else { Player::new(2, "Bob".to_string()) };
        let res = m.press(at(id, *c, *r), p);
        if i + 1 == moves.len() {
            assert!(matches!(res, Press::Moved { outcome: Outcome::Draw, .. }));
        } else {
            assert!(matches!(res, Press::Moved { outcome: Outcome::Continues, .. }));
        }
    }
    assert!(m.get_game(id).is_none());
}
