use relaybot::games::{Game, Player, TicTacToe, EMPTY_CELL, SYMBOL_FIRST, SYMBOL_SECOND};

fn two_player_game() -> Game {
    let players = vec![Player::new(1, "Ann".to_string()), Player::new(2, "Bob".to_string())];
    let mut ttt = TicTacToe::new(7, players);
    ttt.generate_board(3..=3);
    ttt.into_game()
}

#[test]
fn first_column_of_first_symbol_wins() {
    let mut game = two_player_game();
    assert!(game.play(0, 0));
    assert!(game.play(1, 1));
    assert!(game.play(0, 1));
    assert!(game.play(2, 2));
    assert!(game.play(0, 2));
    assert!(game.is_over());
    let winner = game.winner().expect("a winner");
    assert_eq!(winner.id(), 1);
    assert_eq!(winner.symbol(), SYMBOL_FIRST);
    assert_eq!(game.board()[0], vec![SYMBOL_FIRST, SYMBOL_FIRST, SYMBOL_FIRST]);
}

#[test]
fn row_and_diagonals_win() {
    let mut game = two_player_game();
    for (c, r) in [(0, 1), (0, 0), (1, 1), (1, 0), (2, 2), (2, 0)] {
        assert!(game.play(c, r));
    }
    assert!(game.is_over());
    assert_eq!(game.winner().unwrap().id(), 2);

    let mut diag = two_player_game();
    for (c, r) in [(0, 0), (0, 1), (1, 1), (0, 2), (2, 2)] {
        assert!(diag.play(c, r));
    }
    assert_eq!(diag.winner().unwrap().id(), 1);

    let mut anti = two_player_game();
    for (c, r) in [(2, 0), (0, 0), (1, 1), (0, 1), (0, 2)] {
        assert!(anti.play(c, r));
    }
    assert!(anti.is_over());
    assert_eq!(anti.winner().unwrap().id(), 1);
}

#[test]
fn full_board_without_line_is_a_draw() {
    let mut game = two_player_game();
    // A B A / A B B / B A A by columns of moves.
    for (c, r) in [(0, 0), (1, 0), (2, 0), (1, 1), (0, 1), (2, 1), (1, 2), (0, 2), (2, 2)] {
        assert!(!game.is_over());
        assert!(game.play(c, r));
    }
    assert!(game.is_over());
    assert!(game.winner().is_none());
}

#[test]
fn occupied_cell_is_refused_without_change() {
    let mut game = two_player_game();
    assert!(game.play(1, 1));
    let board = game.board();
    let current = game.current_player().unwrap().id();
    assert!(!game.play(1, 1));
    assert!(!game.play(1, 1));
    assert_eq!(game.board(), board);
    assert_eq!(game.current_player().unwrap().id(), current);
}

#[test]
fn cell_outside_board_is_refused() {
    let mut game = two_player_game();
    assert!(!game.play(3, 0));
    assert!(!game.play(0, 3));
    let empty = vec![vec![EMPTY_CELL; 3]; 3];
    assert_eq!(game.board(), empty);
}

#[test]
fn no_move_after_the_end() {
    let mut game = two_player_game();
    for (c, r) in [(0, 0), (1, 1), (0, 1), (2, 2), (0, 2)] {
        assert!(game.play(c, r));
    }
    let board = game.board();
    assert!(!game.play(2, 0));
    assert_eq!(game.board(), board);
}

#[test]
fn seats_are_limited() {
    let mut ttt = TicTacToe::new(1, vec![Player::new(1, "Ann".to_string())]);
    ttt.generate_board(3..=3);
    let mut game = ttt.into_game();
    assert_eq!(game.players_limit(), 2);
    assert_eq!(game.available_seats(), 1);
    assert!(!game.add_player(Player::new(1, "Ann again".to_string())));
    assert!(game.add_player(Player::new(2, "Bob".to_string())));
    assert_eq!(game.available_seats(), 0);
    assert!(!game.add_player(Player::new(3, "Cid".to_string())));
    let players = game.players();
    assert_eq!(players.len(), 2);
    assert_eq!(players[0].id(), 1);
    assert_eq!(players[1].id(), 2);
    assert_eq!(players[1].symbol(), SYMBOL_SECOND);
    assert!(game.has_player(2));
    assert!(!game.has_player(3));
}

#[test]
fn first_joiner_takes_first_symbol_and_turn() {
    let mut ttt = TicTacToe::new(1, vec![Player::new(1, "Ann".to_string())]);
    ttt.generate_board(3..=3);
    let mut game = ttt.into_game();
    game.remove_player(1);
    assert!(game.players().is_empty());
    assert!(game.add_player(Player::new(5, "Eve".to_string())));
    assert_eq!(game.current_player().unwrap().id(), 5);
    assert_eq!(game.current_player().unwrap().symbol(), SYMBOL_FIRST);
}

#[test]
fn switch_player_alternates() {
    let mut game = two_player_game();
    assert_eq!(game.current_player().unwrap().id(), 1);
    assert_eq!(game.next_player().unwrap().id(), 2);
    game.switch_player();
    assert_eq!(game.current_player().unwrap().id(), 2);
    game.switch_player();
    assert_eq!(game.current_player().unwrap().id(), 1);
    game.switch_player();
    assert_eq!(game.current_player().unwrap().id(), 2);
}

#[test]
fn switch_player_alone_gives_turn_to_nobody() {
    let mut game = TicTacToe::new(1, vec![Player::new(4, "Ann".to_string())]).into_game();
    game.switch_player();
    assert!(game.current_player().is_none());
    assert!(game.next_player().is_some());
    game.set_current_player(4);
    assert!(game.next_player().is_none());
}

#[test]
fn same_id_twice_seats_one_player() {
    let game = TicTacToe::new(3, vec![Player::new(9, "Old".to_string()), Player::new(9, "New".to_string())]).into_game();
    let players = game.players();
    assert_eq!(players.len(), 1);
    assert_eq!(players[0].first_name(), "New");
    assert_eq!(players[0].symbol(), SYMBOL_FIRST);
}

#[test]
fn player_symbol_before_seating_follows_id() {
    assert_eq!(Player::new(3, "a".to_string()).symbol(), SYMBOL_FIRST);
    assert_eq!(Player::new(4, "a".to_string()).symbol(), SYMBOL_SECOND);
    assert_eq!(Player::new(5, "a".to_string()).symbol(), EMPTY_CELL);
    assert_eq!(Player::new(-1, "a".to_string()).symbol(), SYMBOL_FIRST);
}

#[test]
fn mention_links_the_user() {
    let p = Player::new(42, "Ann".to_string());
    assert_eq!(p.mention(), "<a href=\"tg://user?id=42\">Ann</a>");
    let q = Player::new(-7, "Neg".to_string());
    assert_eq!(q.mention(), "<a href=\"tg://user?id=-7\">Neg</a>");
}

#[test]
fn player_list_marks_turn_and_end() {
    let mut game = two_player_game();
    assert_eq!(
        game.player_list(),
        "<u><a href=\"tg://user?id=1\">Ann</a></u> (\u{2B55}) vs <a href=\"tg://user?id=2\">Bob</a> (\u{274C})"
    );
    for (c, r) in [(0, 0), (1, 1), (0, 1), (2, 2), (0, 2)] {
        assert!(game.play(c, r));
    }
    assert_eq!(
        game.player_list(),
        "\u{1F451} <b><a href=\"tg://user?id=1\">Ann</a></b> (\u{2B55}) vs \u{1F921} <s><a href=\"tg://user?id=2\">Bob</a></s> (\u{274C})"
    );
}

#[test]
fn generate_text_has_title_and_list() {
    let game = TicTacToe::new(7, vec![Player::new(1, "Ann".to_string())]).into_game();
    assert_eq!(
        game.generate_text(),
        "<b>Tic Tac Toe</b>\n\n<u><a href=\"tg://user?id=1\">Ann</a></u> (\u{2B55})"
    );
    assert_eq!(game.label(), "Tic Tac Toe (ID: 7)");
    assert_eq!(game.id(), 7);
}

#[test]
fn generate_board_is_empty_and_square() {
    let mut game = two_player_game();
    assert!(game.play(0, 0));
    game.generate_board(4..=4);
    assert_eq!(game.board(), vec![vec![EMPTY_CELL; 4]; 4]);
    let fresh = TicTacToe::new(1, vec![Player::new(1, "Ann".to_string())]).into_game();
    assert!(fresh.board().is_empty());
}

#[test]
fn get_and_remove_player() {
    let mut game = two_player_game();
    assert_eq!(game.get_player(2).unwrap().first_name(), "Bob");
    assert!(game.get_player(3).is_none());
    game.remove_player(2);
    assert!(!game.has_player(2));
    assert_eq!(game.players().len(), 1);
    game.remove_player(2);
    assert_eq!(game.players().len(), 1);
}

#[test]
fn duplicate_is_detached() {
    let game = two_player_game();
    let mut copy = game.duplicate();
    assert!(copy.play(0, 0));
    assert_eq!(game.board()[0][0], EMPTY_CELL);
    assert_eq!(copy.board()[0][0], SYMBOL_FIRST);
}
