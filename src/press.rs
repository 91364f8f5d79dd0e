//! Presses on a game's keyboard: the callback data each cell button carries, and what a
//! press does to the registry and what the presser is told.

use vstd::prelude::*;

use crate::games::{
    after_add, after_play, can_play, seated, winner_of, Game, GameView, Player, PlayerView,
    State, TIC_TAC_TOE_SEATS,
};
use crate::manager::{after_remove_game, after_update, found, GameManager, ManagerView};
use crate::relay::{keyboard_view, ButtonView, InlineButton};
use crate::text::{chars_of, decimal, lemma_number_unique, number_at, push_char, push_decimal, read_number};

verus! {

/// The cell a button stands for: the session id and the cell's column and row.
#[derive(Clone, Copy, Debug, PartialEq, Eq, Structural)]
pub struct PressData {
    pub game_id: i32,
    pub column: usize,
    pub row: usize,
}

/// The callback data of a cell button: "ttt", the session id, the column and the row,
/// separated by single spaces.
pub open spec fn press_text(d: PressData) -> Seq<char> {
    seq!['t', 't', 't', ' '] + decimal(d.game_id as nat) + seq![' '] + decimal(d.column as nat) + seq![' ']
        + decimal(d.row as nat)
}

/// The values that callback data can carry.
pub open spec fn press_valid(d: PressData) -> bool {
    &&& d.game_id >= 0
    &&& d.column <= u32::MAX
    &&& d.row <= u32::MAX
}

/// The callback data of the button for the cell.
pub fn press_data(game_id: i32, column: usize, row: usize) -> (r: String)
    requires
        game_id >= 0,
    ensures
        r@ == press_text(PressData { game_id, column, row }),
{
    let mut s = String::new();
    push_char(&mut s, 't');
    push_char(&mut s, 't');
    push_char(&mut s, 't');
    push_char(&mut s, ' ');
    push_decimal(&mut s, game_id as u64);
    push_char(&mut s, ' ');
    push_decimal(&mut s, column as u64);
    push_char(&mut s, ' ');
    push_decimal(&mut s, row as u64);
    assert(s@ =~= press_text(PressData { game_id, column, row }));
    s
}

proof fn lemma_press_fields(t: Seq<char>, d: PressData)
    requires
        press_valid(d),
        t == press_text(d),
    ensures
        ({
            let a = decimal(d.game_id as nat).len() as int;
            let b = decimal(d.column as nat).len() as int;
            &&& t.len() >= 4
            &&& t[0] == 't' && t[1] == 't' && t[2] == 't' && t[3] == ' '
            &&& number_at(t, 4, 4 + a, d.game_id as nat)
            &&& t[4 + a] == ' '
            &&& number_at(t, 5 + a, 5 + a + b, d.column as nat)
            &&& t[5 + a + b] == ' '
            &&& number_at(t, 6 + a + b, t.len() as int, d.row as nat)
        }),
{
    let x = decimal(d.game_id as nat);
    let y = decimal(d.column as nat);
    let z = decimal(d.row as nat);
    let a = x.len() as int;
    let b = y.len() as int;
    assert(t.len() == 6 + a + b + z.len());
    assert(t.subrange(4, 4 + a) =~= x);
    assert(t.subrange(5 + a, 5 + a + b) =~= y);
    assert(t.subrange(6 + a + b, t.len() as int) =~= z);
    assert(t[4 + a] == ' ');
    assert(t[5 + a + b] == ' ');
}

/// Callback data names one cell only: the data of two different cells differ, so the data
/// of a cell's button reads back as that cell.
pub proof fn lemma_press_text_injective(d1: PressData, d2: PressData)
    requires
        press_valid(d1),
        press_valid(d2),
        press_text(d1) == press_text(d2),
    ensures
        d1 == d2,
{
    let t = press_text(d1);
    lemma_press_fields(t, d1);
    lemma_press_fields(t, d2);
    let a1 = decimal(d1.game_id as nat).len() as int;
    let a2 = decimal(d2.game_id as nat).len() as int;
    lemma_number_unique(t, 4, 4 + a1, d1.game_id as nat, 4 + a2, d2.game_id as nat);
    let b1 = decimal(d1.column as nat).len() as int;
    let b2 = decimal(d2.column as nat).len() as int;
    lemma_number_unique(t, 5 + a1, 5 + a1 + b1, d1.column as nat, 5 + a1 + b2, d2.column as nat);
    lemma_number_unique(t, 6 + a1 + b1, t.len() as int, d1.row as nat, t.len() as int, d2.row as nat);
}

/// Reads callback data written by `press_data`: exactly that text, with values in range.
pub fn parse_press(data: &str) -> (r: Option<PressData>)
    ensures
        r matches Some(d) ==> press_valid(d) && data@ == press_text(d),
        r is None ==> forall|d: PressData| press_valid(d) ==> data@ != #[trigger] press_text(d),
{
    let t = chars_of(data);
    let n = t.len();
    if n < 4 || t[0] != 't' || t[1] != 't' || t[2] != 't' || t[3] != ' ' {
        proof {
            assert forall|d: PressData| press_valid(d) implies t@ != #[trigger] press_text(d) by {
                if t@ == press_text(d) {
                    lemma_press_fields(t@, d);
                }
            }
        }
        return None;
    }
    let (id, e1) = match read_number(&t, 4, 0x7FFF_FFFF) {
        Some(x) => x,
        None => {
            proof {
                assert forall|d: PressData| press_valid(d) implies t@ != #[trigger] press_text(d) by {
                    if t@ == press_text(d) {
                        lemma_press_fields(t@, d);
                    }
                }
            }
            return None;
        },
    };
    if e1 >= n || t[e1] != ' ' {
        proof {
            assert forall|d: PressData| press_valid(d) implies t@ != #[trigger] press_text(d) by {
                if t@ == press_text(d) {
                    lemma_press_fields(t@, d);
                    assert(number_at(t@, 4, 4 + decimal(d.game_id as nat).len() as int, d.game_id as nat));
                }
            }
        }
        return None;
    }
    let (column, e2) = match read_number(&t, e1 + 1, 0xFFFF_FFFF) {
        Some(x) => x,
        None => {
            proof {
                assert forall|d: PressData| press_valid(d) implies t@ != #[trigger] press_text(d) by {
                    if t@ == press_text(d) {
                        lemma_press_fields(t@, d);
                        assert(number_at(t@, 4, 4 + decimal(d.game_id as nat).len() as int, d.game_id as nat));
                    }
                }
            }
            return None;
        },
    };
    if e2 >= n || t[e2] != ' ' {
        proof {
            assert forall|d: PressData| press_valid(d) implies t@ != #[trigger] press_text(d) by {
                if t@ == press_text(d) {
                    lemma_press_fields(t@, d);
                    let a = decimal(d.game_id as nat).len() as int;
                    assert(number_at(t@, 4, 4 + a, d.game_id as nat));
                    assert(number_at(t@, 5 + a, 5 + a + decimal(d.column as nat).len() as int, d.column as nat));
                }
            }
        }
        return None;
    }
    let (row, e3) = match read_number(&t, e2 + 1, 0xFFFF_FFFF) {
        Some(x) => x,
        None => {
            proof {
                assert forall|d: PressData| press_valid(d) implies t@ != #[trigger] press_text(d) by {
                    if t@ == press_text(d) {
                        lemma_press_fields(t@, d);
                        let a = decimal(d.game_id as nat).len() as int;
                        let b = decimal(d.column as nat).len() as int;
                        assert(number_at(t@, 4, 4 + a, d.game_id as nat));
                        assert(number_at(t@, 5 + a, 5 + a + b, d.column as nat));
                        assert(number_at(t@, 6 + a + b, t@.len() as int, d.row as nat));
                    }
                }
            }
            return None;
        },
    };
    if e3 != n {
        proof {
            assert forall|d: PressData| press_valid(d) implies t@ != #[trigger] press_text(d) by {
                if t@ == press_text(d) {
                    lemma_press_fields(t@, d);
                    let a = decimal(d.game_id as nat).len() as int;
                    let b = decimal(d.column as nat).len() as int;
                    assert(number_at(t@, 4, 4 + a, d.game_id as nat));
                    assert(number_at(t@, 5 + a, 5 + a + b, d.column as nat));
                    assert(number_at(t@, 6 + a + b, t@.len() as int, d.row as nat));
                }
            }
        }
        return None;
    }
    let d = PressData { game_id: id as i32, column: column as usize, row: row as usize };
    proof {
        let x = t@.subrange(4, e1 as int);
        let y = t@.subrange(e1 + 1, e2 as int);
        let z = t@.subrange(e2 + 1, n as int);
        assert(t@ =~= seq!['t', 't', 't', ' '] + x + seq![' '] + y + seq![' '] + z);
    }
    Some(d)
}

/// The keyboard of a board: one row of buttons per column of the board, each labelled with
/// its cell's symbol and carrying the cell's callback data.
pub open spec fn keyboard_of(b: Seq<Seq<char>>, game_id: i32) -> Seq<Seq<ButtonView>> {
    Seq::new(b.len(), |c: int| Seq::new(b[c].len(), |r: int| ButtonView {
        text: seq![b[c][r]],
        data: press_text(PressData { game_id, column: c as usize, row: r as usize }),
    }))
}

/// The keyboard that shows a board and lets players press its cells.
pub fn board_to_buttons(board: Vec<Vec<char>>, game_id: i32) -> (r: Vec<Vec<InlineButton>>)
    requires
        game_id >= 0,
    ensures
        keyboard_view(r@) == keyboard_of(board@.map_values(|col: Vec<char>| col@), game_id),
{
    let ghost b = board@.map_values(|col: Vec<char>| col@);
    let ghost want = keyboard_of(b, game_id);
    let mut rows: Vec<Vec<InlineButton>> = Vec::new();
    let mut c: usize = 0;
    while c < board.len()
        invariant
            b == board@.map_values(|col: Vec<char>| col@),
            want == keyboard_of(b, game_id),
            game_id >= 0,
            c <= board@.len(),
            rows@.len() == c,
            forall|k: int| 0 <= k < c ==> #[trigger] keyboard_view(rows@)[k] == want[k],
        decreases board@.len() - c,
    {
        let mut line: Vec<InlineButton> = Vec::new();
        let mut r: usize = 0;
        while r < board[c].len()
            invariant
                b == board@.map_values(|col: Vec<char>| col@),
                want == keyboard_of(b, game_id),
                game_id >= 0,
                c < board@.len(),
                r <= board@[c as int]@.len(),
                line@.len() == r,
                forall|k: int| 0 <= k < r ==> (#[trigger] line@[k])@ == want[c as int][k],
            decreases board@[c as int]@.len() - r,
        {
            let mut label = String::new();
            push_char(&mut label, board[c][r]);
            assert(label@ =~= seq![b[c as int][r as int]]);
            let data = press_data(game_id, c, r);
            line.push(InlineButton::new(label, data));
            r = r + 1;
        }
        let ghost prev = rows@;
        rows.push(line);
        proof {
            assert(line@.map_values(|x: InlineButton| x@) =~= want[c as int]);
            assert forall|k: int| 0 <= k < c + 1 implies #[trigger] keyboard_view(rows@)[k] == want[k] by {
                if k < c {
                    assert(rows@[k] == prev[k]);
                    assert(keyboard_view(prev)[k] == want[k]);
                }
            }
        }
        c = c + 1;
    }
    assert(keyboard_view(rows@) =~= want);
    rows
}

/// How a move ended, as the presser is told.
pub enum Outcome {
    /// The game goes on.
    Continues,
    /// The presser won.
    YouWin,
    /// Another player won.
    PlayerWins(Player),
    /// The board is full and nobody won.
    Draw,
}

/// A move's ending, as plain values.
pub enum OutcomeView {
    Continues,
    YouWin,
    PlayerWins(PlayerView),
    Draw,
}

impl View for Outcome {
    type V = OutcomeView;

    open spec fn view(&self) -> OutcomeView {
        match self {
            Outcome::Continues => OutcomeView::Continues,
            Outcome::YouWin => OutcomeView::YouWin,
            Outcome::PlayerWins(p) => OutcomeView::PlayerWins(p@),
            Outcome::Draw => OutcomeView::Draw,
        }
    }
}

/// What a press came to.
pub enum Press {
    /// No session has the id.
    GameNotFound,
    /// The presser is not seated and no seat is left.
    NotInGame,
    /// Someone else holds the turn.
    NotYourTurn,
    /// The presser took a free seat; the session as it now stands is to be shown again.
    Joined(Game),
    /// The cell cannot be played; when `joined`, the presser took a seat first, which is not kept.
    OccupiedCell { joined: bool },
    /// The move was made; `game` is the session after it.
    Moved { joined: bool, game: Game, outcome: Outcome },
}

/// A press's result, as plain values.
pub enum PressView {
    GameNotFound,
    NotInGame,
    NotYourTurn,
    Joined(GameView),
    OccupiedCell { joined: bool },
    Moved { joined: bool, game: GameView, outcome: OutcomeView },
}

impl View for Press {
    type V = PressView;

    open spec fn view(&self) -> PressView {
        match self {
            Press::GameNotFound => PressView::GameNotFound,
            Press::NotInGame => PressView::NotInGame,
            Press::NotYourTurn => PressView::NotYourTurn,
            Press::Joined(g) => PressView::Joined(g@),
            Press::OccupiedCell { joined } => PressView::OccupiedCell { joined: *joined },
            Press::Moved { joined, game, outcome } => PressView::Moved {
                joined: *joined,
                game: game@,
                outcome: outcome@,
            },
        }
    }
}

/// How a move that left the session `g` ended, for the presser `id`.
pub open spec fn outcome_of(g: GameView, id: i64) -> OutcomeView {
    if g.state != State::End {
        OutcomeView::Continues
    } else {
        match winner_of(g) {
            Some(w) => if w.id == id {
                OutcomeView::YouWin
            } else {
                OutcomeView::PlayerWins(w)
            },
            None => OutcomeView::Draw,
        }
    }
}

/// The presser `id` plays the cell of `d` in the session `g`.
pub open spec fn move_of(g: GameView, d: PressData, id: i64, joined: bool) -> PressView {
    if !can_play(g, d.column as int, d.row as int) {
        PressView::OccupiedCell { joined }
    } else {
        let after = after_play(g, d.column as int, d.row as int);
        PressView::Moved { joined, game: after, outcome: outcome_of(after, id) }
    }
}

/// What a press by `p` on the cell of `d` comes to. Unknown session: not found. A presser who
/// is not seated takes a free seat, or is told that no seat is left; once seated, if the turn
/// is held by a seated player the session is shown again, else the presser takes the turn and
/// plays. A seated presser who does not hold the turn is told so; one who does plays the cell.
pub open spec fn press_spec(m: ManagerView, d: PressData, p: PlayerView) -> PressView {
    match found(m, d.game_id) {
        None => PressView::GameNotFound,
        Some(g) => if !seated(g.players, p.id) {
            if g.players.len() >= TIC_TAC_TOE_SEATS {
                PressView::NotInGame
            } else if seated(after_add(g, p).players, after_add(g, p).current_player) {
                PressView::Joined(after_add(g, p))
            } else {
                move_of(GameView { current_player: p.id, ..after_add(g, p) }, d, p.id, true)
            }
        } else if g.current_player != p.id {
            PressView::NotYourTurn
        } else {
            move_of(g, d, p.id, false)
        },
    }
}

/// The registry after a press: a seat taken without a move, and a move that leaves the game
/// going, are stored back; a move that ends the game removes the session.
pub open spec fn after_press(m: ManagerView, d: PressData, p: PlayerView) -> ManagerView {
    match press_spec(m, d, p) {
        PressView::Joined(g) => after_update(m, g),
        PressView::Moved { game, .. } => if game.state == State::End {
            after_remove_game(m, game.id)
        } else {
            after_update(m, game)
        },
        _ => m,
    }
}

/// A press by a seated player who does not hold the turn is refused and changes nothing, so
/// the board stays exactly as it was.
pub proof fn lemma_out_of_turn_press_refused(m: ManagerView, d: PressData, p: PlayerView)
    requires
        found(m, d.game_id) is Some,
        seated(found(m, d.game_id).unwrap().players, p.id),
        found(m, d.game_id).unwrap().current_player != p.id,
    ensures
        press_spec(m, d, p) == PressView::NotYourTurn,
        after_press(m, d, p) == m,
{
}

impl GameManager {
    /// Handles a press by `presser` on the cell of `data`, taking a copy of the session,
    /// changing it and storing it back, or removing it once the game is over.
    pub fn press(&mut self, data: PressData, presser: Player) -> (r: Press)
        requires
            old(self).wf(),
        ensures
            final(self).wf(),
            r@ == press_spec(old(self)@, data, presser@),
            final(self)@ == after_press(old(self)@, data, presser@),
    {
        let ghost m = self@;
        let ghost pv = presser@;
        let mut game = match self.get_game(data.game_id) {
            Some(g) => g,
            None => {
                return Press::GameNotFound;
            },
        };
        let ghost g0 = game@;
        let pid = presser.id();
        let mut joined = false;
        if !game.has_player(pid) {
            if game.available_seats() == 0 {
                return Press::NotInGame;
            }
            game.add_player(presser);
            joined = true;
            if game.current_player().is_some() {
                let shown = game.duplicate();
                self.update_game(game);
                return Press::Joined(shown);
            }
            game.set_current_player(pid);
        } else {
            let holds_turn = match game.current_player() {
                Some(p) => p.id() == pid,
                None => false,
            };
            if !holds_turn {
                return Press::NotYourTurn;
            }
        }
        let ghost before = game@;
        if !game.play(data.column, data.row) {
            return Press::OccupiedCell { joined };
        }
        let outcome = if game.is_over() {
            match game.winner() {
                Some(w) => {
                    if w.id() == pid {
                        Outcome::YouWin
                    } else {
                        Outcome::PlayerWins(w.duplicate())
                    }
                },
                None => Outcome::Draw,
            }
        } else {
            Outcome::Continues
        };
        let shown = game.duplicate();
        if game.is_over() {
            self.remove_game(game);
        } else {
            self.update_game(game);
        }
        Press::Moved { joined, game: shown, outcome }
    }
}

} // verus!
