use relaybot::games::{Game, Player, TicTacToe};
use relaybot::manager::GameManager;

fn game_with_id(id: i32) -> Game {
    let mut ttt = TicTacToe::new(id, vec![Player::new(1, "Ann".to_string()), Player::new(2, "Bob".to_string())]);
    ttt.generate_board(3..=3);
    ttt.into_game()
}

#[test]
fn new_ids_strictly_increase_across_add_and_remove() {
    let mut m = GameManager::new();
    assert_eq!(m.last_id(), 0);
    let a = m.new_id();
    assert_eq!(a, 1);
    m.add_game(game_with_id(a));
    let b = m.new_id();
    assert_eq!(b, 2);
    m.add_game(game_with_id(b));
    m.remove_game(game_with_id(b));
    let c = m.new_id();
    assert_eq!(c, 3);
    m.remove_game(game_with_id(a));
    let d = m.new_id();
    assert_eq!(d, 4);
    assert!(a < b && b < c && c < d);
}

#[test]
fn added_id_is_never_handed_out_again() {
    let mut m = GameManager::new();
    m.add_game(game_with_id(10));
    assert_eq!(m.new_id(), 11);
}

#[test]
fn get_returns_detached_copy() {
    let mut m = GameManager::new();
    let id = m.new_id();
    m.add_game(game_with_id(id));
    let mut copy = m.get_game(id).unwrap();
    assert!(copy.play(1, 1));
    assert_eq!(m.get_game(id).unwrap().board(), game_with_id(id).board());
    assert!(m.update_game(copy));
    assert_eq!(m.get_game(id).unwrap().board()[1][1], relaybot::games::SYMBOL_FIRST);
    assert!(m.get_game(id + 1).is_none());
}

#[test]
fn update_of_get_changes_nothing() {
    let mut m = GameManager::new();
    let id = m.new_id();
    let mut g = game_with_id(id);
    assert!(g.play(2, 0));
    m.add_game(g);
    let before = m.get_game(id).unwrap();
    assert!(m.update_game(m.get_game(id).unwrap()));
    let after = m.get_game(id).unwrap();
    assert_eq!(after.board(), before.board());
    assert_eq!(after.player_list(), before.player_list());
    assert_eq!(after.current_player().unwrap().id(), before.current_player().unwrap().id());
    assert_eq!(after.is_over(), before.is_over());
}

#[test]
fn concurrent_updates_last_writer_wins() {
    let mut m = GameManager::new();
    let id = m.new_id();
    m.add_game(game_with_id(id));
    let mut first = m.get_game(id).unwrap();
    let mut second = m.get_game(id).unwrap();
    assert!(first.play(0, 0));
    assert!(second.play(2, 2));
    assert!(m.update_game(first));
    assert!(m.update_game(second));
    let stored = m.get_game(id).unwrap().board();
    assert_eq!(stored[0][0], relaybot::games::EMPTY_CELL);
    assert_eq!(stored[2][2], relaybot::games::SYMBOL_FIRST);
}

#[test]
fn update_of_unknown_game_is_refused() {
    let mut m = GameManager::new();
    let id = m.new_id();
    m.add_game(game_with_id(id));
    assert!(!m.update_game(game_with_id(id + 5)));
    assert!(m.get_game(id + 5).is_none());
}

#[test]
fn remove_deletes_the_session() {
    let mut m = GameManager::new();
    let a = m.new_id();
    m.add_game(game_with_id(a));
    let b = m.new_id();
    m.add_game(game_with_id(b));
    m.remove_game(game_with_id(a));
    assert!(m.get_game(a).is_none());
    assert!(m.get_game(b).is_some());
}
