//! Turn-based game sessions: players, the Tic-Tac-Toe board and its rules.

use std::ops::RangeInclusive;

use vstd::prelude::*;

use crate::text::{int_text, push_char, push_int, push_str};

verus! {

/// The symbol of the first seated player.
pub const SYMBOL_FIRST: char = '\u{2B55}';

/// The symbol of every later player.
pub const SYMBOL_SECOND: char = '\u{274C}';

/// The content of a cell that nobody has played.
pub const EMPTY_CELL: char = '\u{1F7E5}';

/// The current-player value that names nobody.
pub const NO_PLAYER: i64 = 0;

/// The number of seats of a Tic-Tac-Toe session.
pub const TIC_TAC_TOE_SEATS: usize = 2;

/// The symbol a freshly built player carries before a game seats it.
pub open spec fn initial_symbol(id: i64) -> char {
    let k = (id as u64) % 3;
    if k == 0 {
        SYMBOL_FIRST
    } else if k == 1 {
        SYMBOL_SECOND
    } else {
        EMPTY_CELL
    }
}

/// A participant of a game session.
pub struct Player {
    id: i64,
    symbol: char,
    first_name: String,
}

/// What a player is, as plain values.
pub struct PlayerView {
    pub id: i64,
    pub symbol: char,
    pub first_name: Seq<char>,
}

impl View for Player {
    type V = PlayerView;

    closed spec fn view(&self) -> PlayerView {
        PlayerView { id: self.id, symbol: self.symbol, first_name: self.first_name@ }
    }
}

/// The HTML link that mentions a user by id and name.
pub open spec fn mention_text(id: i64, name: Seq<char>) -> Seq<char> {
    "<a href=\"tg://user?id="@ + int_text(id as int) + "\">"@ + name + "</a>"@
}

impl Player {
    /// A player with the given identity; its symbol is picked from the id until a game seats it.
    pub fn new(id: i64, first_name: String) -> (r: Player)
        ensures
            r@ == (PlayerView { id, symbol: initial_symbol(id), first_name: first_name@ }),
    {
        let k = (id as u64) % 3;
        let symbol = if k == 0 {
            SYMBOL_FIRST
        } else if k == 1 {
            SYMBOL_SECOND
        } else {
            EMPTY_CELL
        };
        Player { id, symbol, first_name }
    }

    /// The player's id.
    pub fn id(&self) -> (r: i64)
        ensures
            r == self@.id,
    {
        self.id
    }

    /// The player's symbol.
    pub fn symbol(&self) -> (r: char)
        ensures
            r == self@.symbol,
    {
        self.symbol
    }

    /// The HTML mention of the player.
    pub fn mention(&self) -> (r: String)
        ensures
            r@ == mention_text(self@.id, self@.first_name),
    {
        let mut s = String::new();
        push_str(&mut s, "<a href=\"tg://user?id=");
        push_int(&mut s, self.id);
        push_str(&mut s, "\">");
        push_str(&mut s, self.first_name.as_str());
        push_str(&mut s, "</a>");
        assert(s@ =~= mention_text(self@.id, self@.first_name));
        s
    }

    /// The player's first name.
    pub fn first_name(&self) -> (r: &str)
        ensures
            r@ == self@.first_name,
    {
        self.first_name.as_str()
    }

    /// A copy of the player with the same view.
    pub fn duplicate(&self) -> (r: Player)
        ensures
            r@ == self@,
    {
        Player { id: self.id, symbol: self.symbol, first_name: self.first_name.clone() }
    }

    fn with_symbol(self, symbol: char) -> (r: Player)
        ensures
            r@ == (PlayerView { symbol, ..self@ }),
    {
        Player { symbol, ..self }
    }
}


/// The phase of a game session.
#[derive(Clone, Copy, Debug, PartialEq, Eq, Structural)]
pub enum State {
    Start,
    Playing,
    End,
}

/// A game session, as plain values.
pub struct GameView {
    pub id: i32,
    /// `board[column][row]`.
    pub board: Seq<Seq<char>>,
    /// The seated players, in the order they joined.
    pub players: Seq<PlayerView>,
    pub state: State,
    pub winner: Option<i64>,
    pub last_player: i64,
    pub current_player: i64,
}

/// No two players share an id.
pub open spec fn ids_unique(ps: Seq<PlayerView>) -> bool {
    forall|i: int, j: int| 0 <= i < ps.len() && 0 <= j < ps.len() && i != j ==> ps[i].id != ps[j].id
}

/// Some player has the id.
pub open spec fn seated(ps: Seq<PlayerView>, id: i64) -> bool {
    exists|i: int| 0 <= i < ps.len() && ps[i].id == id
}

/// The position of the player with the id (meaningful when `seated(ps, id)`).
pub open spec fn seat_of(ps: Seq<PlayerView>, id: i64) -> int {
    choose|i: int| 0 <= i < ps.len() && ps[i].id == id
}

/// Every column of the board holds as many cells as the board has columns.
pub open spec fn is_square(b: Seq<Seq<char>>) -> bool {
    forall|c: int| 0 <= c < b.len() ==> #[trigger] b[c].len() == b.len()
}

/// The board of the given size with every cell empty.
pub open spec fn empty_board(n: nat) -> Seq<Seq<char>> {
    Seq::new(n, |c: int| Seq::new(n, |r: int| EMPTY_CELL))
}

/// A session that the rules can act on.
pub open spec fn game_wf(g: GameView) -> bool {
    &&& ids_unique(g.players)
    &&& g.players.len() <= TIC_TAC_TOE_SEATS
    &&& forall|i: int| 0 <= i < g.players.len() ==> (#[trigger] g.players[i]).symbol != EMPTY_CELL
    &&& is_square(g.board)
}

/// The players of a new session: the first seated with the first symbol, the other with the second.
pub open spec fn opening_players(ps: Seq<PlayerView>) -> Seq<PlayerView> {
    if ps.len() == 1 {
        seq![PlayerView { symbol: SYMBOL_FIRST, ..ps[0] }]
    } else if ps[1].id == ps[0].id {
        seq![PlayerView { symbol: SYMBOL_FIRST, ..ps[1] }]
    } else {
        seq![PlayerView { symbol: SYMBOL_FIRST, ..ps[0] }, PlayerView { symbol: SYMBOL_SECOND, ..ps[1] }]
    }
}

/// `i` is the first position whose player is not `cur`.
pub open spec fn is_first_other(ps: Seq<PlayerView>, cur: i64, i: int) -> bool {
    &&& 0 <= i < ps.len()
    &&& ps[i].id != cur
    &&& forall|j: int| 0 <= j < i ==> #[trigger] ps[j].id == cur
}

/// The id that follows `cur`: the first player in join order that is not `cur`, or nobody.
pub open spec fn next_after(ps: Seq<PlayerView>, cur: i64) -> i64 {
    if exists|i: int| is_first_other(ps, cur, i) {
        ps[choose|i: int| is_first_other(ps, cur, i)].id
    } else {
        NO_PLAYER
    }
}

/// The session after the turn passes on.
pub open spec fn switched(g: GameView) -> GameView {
    GameView { last_player: g.current_player, current_player: next_after(g.players, g.current_player), ..g }
}

proof fn lemma_first_other_unique(ps: Seq<PlayerView>, cur: i64, i: int, k: int)
    requires
        is_first_other(ps, cur, i),
        is_first_other(ps, cur, k),
    ensures
        i == k,
{
    if i < k {
        assert(ps[i].id == cur);
    } else if k < i {
        assert(ps[k].id == cur);
    }
}

/// Every cell of column `c` holds `s`.
pub open spec fn column_complete(b: Seq<Seq<char>>, s: char, c: int) -> bool {
    forall|r: int| 0 <= r < b.len() ==> #[trigger] b[c][r] == s
}

/// Every column holds `s` at row `r`.
pub open spec fn row_complete(b: Seq<Seq<char>>, s: char, r: int) -> bool {
    forall|c: int| 0 <= c < b.len() ==> #[trigger] b[c][r] == s
}

/// The cell of the rising diagonal in column `n - 1 - i` and row `i`.
pub open spec fn anti_cell(b: Seq<Seq<char>>, i: int) -> char {
    b[b.len() - 1 - i][i]
}

/// Some column, row or diagonal of the square board holds `s` in every cell.
pub open spec fn has_line(b: Seq<Seq<char>>, s: char) -> bool {
    ||| exists|c: int| 0 <= c < b.len() && column_complete(b, s, c)
    ||| exists|r: int| 0 <= r < b.len() && row_complete(b, s, r)
    ||| forall|i: int| 0 <= i < b.len() ==> #[trigger] b[i][i] == s
    ||| forall|i: int| 0 <= i < b.len() ==> #[trigger] anti_cell(b, i) == s
}

/// No cell of the square board is empty.
pub open spec fn is_full(b: Seq<Seq<char>>) -> bool {
    forall|c: int, r: int| 0 <= c < b.len() && 0 <= r < b.len() ==> #[trigger] b[c][r] != EMPTY_CELL
}

/// The symbol of the player holding the turn.
pub open spec fn mover_symbol(g: GameView) -> char {
    g.players[seat_of(g.players, g.current_player)].symbol
}

/// A move at (`c`, `r`) is accepted: the game goes on, someone seated holds the turn and the cell is empty.
pub open spec fn can_play(g: GameView, c: int, r: int) -> bool {
    &&& g.state != State::End
    &&& seated(g.players, g.current_player)
    &&& 0 <= c < g.board.len()
    &&& 0 <= r < g.board[c].len()
    &&& g.board[c][r] == EMPTY_CELL
}

/// The board once the player holding the turn has marked (`c`, `r`).
pub open spec fn marked(g: GameView, c: int, r: int) -> Seq<Seq<char>> {
    g.board.update(c, g.board[c].update(r, mover_symbol(g)))
}

/// The session after a move at (`c`, `r`): a completed line ends it with the mover as winner,
/// a full board ends it as a draw, and otherwise the turn passes on. A rejected move changes nothing.
pub open spec fn after_play(g: GameView, c: int, r: int) -> GameView {
    if !can_play(g, c, r) {
        g
    } else if has_line(marked(g, c, r), mover_symbol(g)) {
        GameView { board: marked(g, c, r), state: State::End, winner: Some(g.current_player), ..g }
    } else if is_full(marked(g, c, r)) {
        GameView { board: marked(g, c, r), state: State::End, winner: None, ..g }
    } else {
        switched(GameView { board: marked(g, c, r), ..g })
    }
}

/// The session after a player asks for a seat: refused when already seated or when no seat
/// is left; the first seated player takes the first symbol and the turn, later ones the second.
pub open spec fn after_add(g: GameView, p: PlayerView) -> GameView {
    if seated(g.players, p.id) || g.players.len() >= TIC_TAC_TOE_SEATS {
        g
    } else if g.players.len() == 0 {
        GameView {
            players: seq![PlayerView { symbol: SYMBOL_FIRST, ..p }],
            state: State::Playing,
            current_player: p.id,
            ..g
        }
    } else {
        GameView {
            players: g.players.push(PlayerView { symbol: SYMBOL_SECOND, ..p }),
            state: State::Playing,
            ..g
        }
    }
}

/// The seated player with the id, if any.
pub open spec fn player_of(ps: Seq<PlayerView>, id: i64) -> Option<PlayerView> {
    if seated(ps, id) {
        Some(ps[seat_of(ps, id)])
    } else {
        None
    }
}

/// The view of an optional player.
pub open spec fn opt_view(o: Option<&Player>) -> Option<PlayerView> {
    match o {
        Some(p) => Some(p@),
        None => None,
    }
}

/// The winner, when the session names one and that player is still seated.
pub open spec fn winner_of(g: GameView) -> Option<PlayerView> {
    match g.winner {
        Some(w) => player_of(g.players, w),
        None => None,
    }
}

/// The first player in join order that does not hold the turn.
pub open spec fn next_of(g: GameView) -> Option<PlayerView> {
    if exists|i: int| is_first_other(g.players, g.current_player, i) {
        Some(g.players[choose|i: int| is_first_other(g.players, g.current_player, i)])
    } else {
        None
    }
}

/// The session without the player with the id.
pub open spec fn after_remove(g: GameView, id: i64) -> GameView {
    if seated(g.players, id) {
        GameView { players: g.players.remove(seat_of(g.players, id)), ..g }
    } else {
        g
    }
}

/// The id that the player list crowns: the winner's, when the winner is still seated, else 0.
pub open spec fn crowned_id(g: GameView) -> i64 {
    match winner_of(g) {
        Some(p) => p.id,
        None => 0,
    }
}

/// One entry of the player list: the mention, decorated by the player's standing, and the symbol.
pub open spec fn entry_text(g: GameView, p: PlayerView) -> Seq<char> {
    let m = mention_text(p.id, p.first_name);
    let tail = " ("@ + seq![p.symbol] + ")"@;
    if p.id == crowned_id(g) {
        "\u{1F451} <b>"@ + m + "</b>"@ + tail
    } else if g.state == State::End {
        "\u{1F921} <s>"@ + m + "</s>"@ + tail
    } else if p.id == g.current_player {
        "<u>"@ + m + "</u>"@ + tail
    } else {
        m + tail
    }
}

/// The entries of the first `k` players, separated by " vs ".
pub open spec fn entries_text(g: GameView, k: int) -> Seq<char>
    decreases k,
{
    if k <= 0 {
        Seq::empty()
    } else if k == 1 {
        entry_text(g, g.players[0])
    } else {
        entries_text(g, k - 1) + " vs "@ + entry_text(g, g.players[k - 1])
    }
}

/// The player list of a session.
pub open spec fn player_list_text(g: GameView) -> Seq<char> {
    entries_text(g, g.players.len() as int)
}

/// The message that shows a session: its title, a blank line and the player list.
pub open spec fn game_text(g: GameView) -> Seq<char> {
    "<b>Tic Tac Toe</b>\n"@ + "\n"@ + player_list_text(g)
}

/// The short label of a session.
pub open spec fn label_text(g: GameView) -> Seq<char> {
    "Tic Tac Toe (ID: "@ + int_text(g.id as int) + ")"@
}

/// The session after each of the players, in order, asks for a seat.
pub open spec fn after_adds(g: GameView, ps: Seq<PlayerView>) -> GameView
    decreases ps.len(),
{
    if ps.len() == 0 {
        g
    } else {
        after_adds(after_add(g, ps[0]), ps.drop_first())
    }
}

proof fn lemma_add_keeps_wf(g: GameView, p: PlayerView)
    requires
        game_wf(g),
    ensures
        game_wf(after_add(g, p)),
{
    if !(seated(g.players, p.id) || g.players.len() >= TIC_TAC_TOE_SEATS) && g.players.len() > 0 {
        assert forall|j: int| 0 <= j < g.players.len() implies #[trigger] g.players[j].id != p.id by {
            if g.players[j].id == p.id {
                assert(seated(g.players, p.id));
            }
        }
        lemma_push_unique(g.players, PlayerView { symbol: SYMBOL_SECOND, ..p });
    }
}

/// However many players ask for a seat, and in whatever order, a well-formed session never
/// seats more players than it has seats, and stays well formed.
pub proof fn lemma_seats_never_exceed(g: GameView, ps: Seq<PlayerView>)
    requires
        game_wf(g),
    ensures
        game_wf(after_adds(g, ps)),
        after_adds(g, ps).players.len() <= TIC_TAC_TOE_SEATS,
    decreases ps.len(),
{
    if ps.len() > 0 {
        lemma_add_keeps_wf(g, ps[0]);
        lemma_seats_never_exceed(after_add(g, ps[0]), ps.drop_first());
    }
}

/// A request for a seat when every seat is taken is refused and changes nothing.
pub proof fn lemma_full_session_refuses(g: GameView, p: PlayerView)
    requires
        g.players.len() >= TIC_TAC_TOE_SEATS,
    ensures
        after_add(g, p) == g,
{
}

/// After an accepted move that completes a line of the mover's symbol, the game is over and
/// its winner is the mover; after an accepted move that fills the board without such a line,
/// the game is over with no winner.
pub proof fn lemma_move_outcome(g: GameView, c: int, r: int)
    requires
        game_wf(g),
        can_play(g, c, r),
    ensures
        has_line(marked(g, c, r), mover_symbol(g)) ==> {
            &&& after_play(g, c, r).state == State::End
            &&& winner_of(after_play(g, c, r)) == player_of(g.players, g.current_player)
            &&& winner_of(after_play(g, c, r)) is Some
        },
        !has_line(marked(g, c, r), mover_symbol(g)) && is_full(marked(g, c, r)) ==> {
            &&& after_play(g, c, r).state == State::End
            &&& winner_of(after_play(g, c, r)) is None
        },
{
}

/// A rejected move, on an occupied cell among others, leaves the session as it was.
pub proof fn lemma_occupied_cell_rejected(g: GameView, c: int, r: int)
    requires
        0 <= c < g.board.len(),
        0 <= r < g.board[c].len(),
        g.board[c][r] != EMPTY_CELL,
    ensures
        !can_play(g, c, r),
        after_play(g, c, r) == g,
{
}

/// With two or more players seated, passing the turn always hands it to another seated player.
pub proof fn lemma_switch_picks_other(g: GameView)
    requires
        game_wf(g),
        g.players.len() >= 2,
    ensures
        switched(g).current_player != g.current_player,
        seated(g.players, switched(g).current_player),
        switched(g).last_player == g.current_player,
{
    let cur = g.current_player;
    let i: int = if g.players[0].id != cur { 0 } else { 1 };
    assert(g.players[0].id != g.players[1].id);
    assert(is_first_other(g.players, cur, i));
    let k = choose|k: int| is_first_other(g.players, cur, k);
    lemma_first_other_unique(g.players, cur, i, k);
}

/// With exactly two players seated and the turn held by one of them, the turn alternates
/// strictly: passing it twice gives it back.
pub proof fn lemma_switch_alternates(g: GameView)
    requires
        game_wf(g),
        g.players.len() == 2,
        seated(g.players, g.current_player),
    ensures
        switched(g).current_player != g.current_player,
        switched(switched(g)).current_player == g.current_player,
{
    lemma_switch_picks_other(g);
    let h = switched(g);
    lemma_switch_picks_other(h);
    let a = g.players[0].id;
    let b = g.players[1].id;
    assert(g.current_player == a || g.current_player == b);
    assert(h.current_player == a || h.current_player == b);
    assert(switched(h).current_player == a || switched(h).current_player == b);
}

proof fn lemma_seat_unique(ps: Seq<PlayerView>, id: i64, k: int)
    requires
        ids_unique(ps),
        0 <= k < ps.len(),
        ps[k].id == id,
    ensures
        seated(ps, id),
        seat_of(ps, id) == k,
{
    assert(seated(ps, id));
    let i = seat_of(ps, id);
    assert(ps[i].id == id);
}

proof fn lemma_push_unique(ps: Seq<PlayerView>, q: PlayerView)
    requires
        ids_unique(ps),
        forall|j: int| 0 <= j < ps.len() ==> #[trigger] ps[j].id != q.id,
    ensures
        ids_unique(ps.push(q)),
{
    let qs = ps.push(q);
    assert forall|i: int, j: int| 0 <= i < qs.len() && 0 <= j < qs.len() && i != j implies qs[i].id != qs[j].id by {
        if i < ps.len() && j < ps.len() {
            assert(qs[i] == ps[i] && qs[j] == ps[j]);
        } else if i < ps.len() {
            assert(qs[i] == ps[i]);
        } else {
            assert(qs[j] == ps[j]);
        }
    }
}

/// The players of a list, as plain values.
pub open spec fn views(ps: Seq<Player>) -> Seq<PlayerView> {
    ps.map_values(|p: Player| p@)
}

/// The cells of a board, as plain values.
pub open spec fn cells(b: Seq<Vec<char>>) -> Seq<Seq<char>> {
    b.map_values(|col: Vec<char>| col@)
}

fn copy_cells(v: &Vec<char>) -> (r: Vec<char>)
    ensures
        r@ == v@,
{
    let mut r: Vec<char> = Vec::new();
    let mut i: usize = 0;
    while i < v.len()
        invariant
            i <= v@.len(),
            r@ == v@.subrange(0, i as int),
        decreases v@.len() - i,
    {
        r.push(v[i]);
        i = i + 1;
        assert(r@ =~= v@.subrange(0, i as int));
    }
    assert(r@ =~= v@);
    r
}

fn column_filled(b: &Vec<Vec<char>>, s: char, c: usize) -> (r: bool)
    requires
        is_square(cells(b@)),
        c < b@.len(),
    ensures
        r == column_complete(cells(b@), s, c as int),
{
    let n = b.len();
    let mut i: usize = 0;
    while i < n
        invariant
            n == b@.len(),
            is_square(cells(b@)),
            c < n,
            i <= n,
            forall|k: int| 0 <= k < i ==> #[trigger] cells(b@)[c as int][k] == s,
        decreases n - i,
    {
        assert(cells(b@)[c as int].len() == n);
        if b[c][i] != s {
            return false;
        }
        i = i + 1;
    }
    true
}

fn row_filled(b: &Vec<Vec<char>>, s: char, r: usize) -> (res: bool)
    requires
        is_square(cells(b@)),
        r < b@.len(),
    ensures
        res == row_complete(cells(b@), s, r as int),
{
    let n = b.len();
    let mut i: usize = 0;
    while i < n
        invariant
            n == b@.len(),
            is_square(cells(b@)),
            r < n,
            i <= n,
            forall|k: int| 0 <= k < i ==> #[trigger] cells(b@)[k][r as int] == s,
        decreases n - i,
    {
        assert(cells(b@)[i as int].len() == n);
        if b[i][r] != s {
            return false;
        }
        i = i + 1;
    }
    true
}

fn diagonal_filled(b: &Vec<Vec<char>>, s: char) -> (res: bool)
    requires
        is_square(cells(b@)),
    ensures
        res == forall|i: int| 0 <= i < b@.len() ==> #[trigger] cells(b@)[i][i] == s,
{
    let n = b.len();
    let mut i: usize = 0;
    while i < n
        invariant
            n == b@.len(),
            is_square(cells(b@)),
            i <= n,
            forall|k: int| 0 <= k < i ==> #[trigger] cells(b@)[k][k] == s,
        decreases n - i,
    {
        assert(cells(b@)[i as int].len() == n);
        if b[i][i] != s {
            return false;
        }
        i = i + 1;
    }
    true
}

fn anti_diagonal_filled(b: &Vec<Vec<char>>, s: char) -> (res: bool)
    requires
        is_square(cells(b@)),
    ensures
        res == forall|i: int| 0 <= i < b@.len() ==> #[trigger] anti_cell(cells(b@), i) == s,
{
    let n = b.len();
    let mut i: usize = 0;
    while i < n
        invariant
            n == b@.len(),
            is_square(cells(b@)),
            i <= n,
            forall|k: int| 0 <= k < i ==> #[trigger] anti_cell(cells(b@), k) == s,
        decreases n - i,
    {
        assert(cells(b@)[n - i - 1].len() == n);
        if b[n - i - 1][i] != s {
            assert(anti_cell(cells(b@), i as int) != s);
            return false;
        }
        i = i + 1;
    }
    true
}

fn line_found(b: &Vec<Vec<char>>, s: char) -> (res: bool)
    requires
        is_square(cells(b@)),
    ensures
        res == has_line(cells(b@), s),
{
    let n = b.len();
    let mut i: usize = 0;
    while i < n
        invariant
            n == b@.len(),
            is_square(cells(b@)),
            i <= n,
            forall|k: int| 0 <= k < i ==> !#[trigger] column_complete(cells(b@), s, k),
            forall|k: int| 0 <= k < i ==> !#[trigger] row_complete(cells(b@), s, k),
        decreases n - i,
    {
        if column_filled(b, s, i) || row_filled(b, s, i) {
            return true;
        }
        i = i + 1;
    }
    diagonal_filled(b, s) || anti_diagonal_filled(b, s)
}

fn board_full(b: &Vec<Vec<char>>) -> (res: bool)
    requires
        is_square(cells(b@)),
    ensures
        res == is_full(cells(b@)),
{
    let n = b.len();
    let mut c: usize = 0;
    while c < n
        invariant
            n == b@.len(),
            is_square(cells(b@)),
            c <= n,
            forall|x: int, y: int| 0 <= x < c && 0 <= y < n ==> #[trigger] cells(b@)[x][y] != EMPTY_CELL,
        decreases n - c,
    {
        assert(cells(b@)[c as int].len() == n);
        let mut r: usize = 0;
        while r < n
            invariant
                n == b@.len(),
                is_square(cells(b@)),
                c < n,
                r <= n,
                cells(b@)[c as int].len() == n,
                forall|x: int, y: int| 0 <= x < c && 0 <= y < n ==> #[trigger] cells(b@)[x][y] != EMPTY_CELL,
                forall|y: int| 0 <= y < r ==> #[trigger] cells(b@)[c as int][y] != EMPTY_CELL,
            decreases n - r,
        {
            if b[c][r] == EMPTY_CELL {
                return false;
            }
            r = r + 1;
        }
        c = c + 1;
    }
    true
}

/// A Tic-Tac-Toe session.
pub struct TicTacToe {
    id: i32,
    board: Vec<Vec<char>>,
    players: Vec<Player>,
    state: State,
    winner: Option<i64>,
    last_player: i64,
    current_player: i64,
}

impl View for TicTacToe {
    type V = GameView;

    closed spec fn view(&self) -> GameView {
        GameView {
            id: self.id,
            board: cells(self.board@),
            players: views(self.players@),
            state: self.state,
            winner: self.winner,
            last_player: self.last_player,
            current_player: self.current_player,
        }
    }
}

/// Relies on `RangeInclusive::start`: the lower bound the range was built with.
#[verifier::external_body]
fn range_start(r: &RangeInclusive<usize>) -> (v: usize)
    ensures
        v == r@.start,
{
    *r.start()
}

/// Relies on `RangeInclusive::end`: the upper bound the range was built with.
#[verifier::external_body]
fn range_end(r: &RangeInclusive<usize>) -> (v: usize)
    ensures
        v == r@.end,
{
    *r.end()
}

impl TicTacToe {
    /// A session in the `Start` phase with an empty board; the first player holds the turn.
    pub fn new(id: i32, players: Vec<Player>) -> (r: TicTacToe)
        requires
            1 <= players.len() <= TIC_TAC_TOE_SEATS,
        ensures
            game_wf(r@),
            r@ == (GameView {
                id,
                board: Seq::empty(),
                players: opening_players(views(players@)),
                state: State::Start,
                winner: None,
                last_player: 0,
                current_player: players@[0]@.id,
            }),
    {
        let ghost input = views(players@);
        let mut players = players;
        let first_id = players[0].id;
        let mut seated: Vec<Player> = Vec::new();
        if players.len() == 2 {
            let second = players.pop().unwrap();
            let first = players.pop().unwrap();
            if second.id == first_id {
                seated.push(second.with_symbol(SYMBOL_FIRST));
            } else {
                seated.push(first.with_symbol(SYMBOL_FIRST));
                seated.push(second.with_symbol(SYMBOL_SECOND));
            }
        } else {
            let first = players.pop().unwrap();
            seated.push(first.with_symbol(SYMBOL_FIRST));
        }
        let r = TicTacToe {
            id,
            board: Vec::new(),
            players: seated,
            state: State::Start,
            winner: None,
            last_player: 0,
            current_player: first_id,
        };
        assert(r@.players =~= opening_players(input));
        assert(r@.board =~= Seq::<Seq<char>>::empty());
        r
    }

    /// Replaces the board with an empty one of `size.start()` columns of `size.end()` cells.
    pub fn generate_board(&mut self, size: RangeInclusive<usize>)
        requires
            game_wf(old(self)@),
            size@.start == size@.end,
        ensures
            game_wf(final(self)@),
            final(self)@ == (GameView { board: empty_board(size@.start as nat), ..old(self)@ }),
    {
        let columns = range_start(&size);
        let rows = range_end(&size);
        let mut board: Vec<Vec<char>> = Vec::new();
        let mut c: usize = 0;
        while c < columns
            invariant
                c <= columns,
                board@.len() == c,
                forall|k: int| 0 <= k < c ==> (#[trigger] board@[k])@ == Seq::new(rows as nat, |r: int| EMPTY_CELL),
            decreases columns - c,
        {
            let mut col: Vec<char> = Vec::new();
            let mut r: usize = 0;
            while r < rows
                invariant
                    r <= rows,
                    col@ == Seq::new(r as nat, |x: int| EMPTY_CELL),
                decreases rows - r,
            {
                col.push(EMPTY_CELL);
                r = r + 1;
                assert(col@ =~= Seq::new(r as nat, |x: int| EMPTY_CELL));
            }
            board.push(col);
            c = c + 1;
        }
        self.board = board;
        assert(self@.board =~= empty_board(columns as nat));
    }

    /// Passes the turn to the first other player in join order, or to nobody when there is none.
    pub fn switch_player(&mut self)
        ensures
            final(self)@ == switched(old(self)@),
    {
        let ghost g = self@;
        let cur = self.current_player;
        let mut next = NO_PLAYER;
        let mut found = false;
        let mut i: usize = 0;
        while i < self.players.len()
            invariant
                i <= self.players@.len(),
                self@ == g,
                cur == g.current_player,
                !found ==> next == NO_PLAYER,
                !found ==> forall|j: int| 0 <= j < i ==> #[trigger] g.players[j].id == cur,
                found ==> next == next_after(g.players, cur),
            decreases self.players@.len() - i,
        {
            if !found && self.players[i].id != cur {
                proof {
                    assert(is_first_other(g.players, cur, i as int));
                    let k = choose|k: int| is_first_other(g.players, cur, k);
                    lemma_first_other_unique(g.players, cur, i as int, k);
                }
                next = self.players[i].id;
                found = true;
            }
            i = i + 1;
        }
        proof {
            if !found {
                assert forall|k: int| !is_first_other(g.players, cur, k) by {
                    if 0 <= k < g.players.len() {
                        assert(g.players[k].id == cur);
                    }
                }
            }
        }
        self.last_player = cur;
        self.current_player = next;
        assert(self@.players == g.players);
        assert(self@.board == g.board);
    }

    fn find_seat(&self, id: i64) -> (r: Option<usize>)
        requires
            ids_unique(self@.players),
        ensures
            r is Some <==> seated(self@.players, id),
            r matches Some(k) ==> k < self@.players.len() && seat_of(self@.players, id) == k
                && self@.players[k as int].id == id,
    {
        let mut i: usize = 0;
        while i < self.players.len()
            invariant
                i <= self@.players.len(),
                ids_unique(self@.players),
                forall|j: int| 0 <= j < i ==> #[trigger] self@.players[j].id != id,
            decreases self@.players.len() - i,
        {
            if self.players[i].id == id {
                proof {
                    lemma_seat_unique(self@.players, id, i as int);
                }
                return Some(i);
            }
            i = i + 1;
        }
        None
    }

    fn play(&mut self, column: usize, row: usize) -> (r: bool)
        requires
            game_wf(old(self)@),
        ensures
            r == can_play(old(self)@, column as int, row as int),
            final(self)@ == after_play(old(self)@, column as int, row as int),
            game_wf(final(self)@),
    {
        let ghost g = self@;
        if self.state == State::End {
            return false;
        }
        let seat = self.find_seat(self.current_player);
        let k = match seat {
            Some(k) => k,
            None => {
                return false;
            },
        };
        if column >= self.board.len() {
            return false;
        }
        if row >= self.board[column].len() {
            return false;
        }
        if self.board[column][row] != EMPTY_CELL {
            return false;
        }
        let symbol = self.players[k].symbol;
        assert(symbol == mover_symbol(g));
        let mut col = copy_cells(&self.board[column]);
        col.set(row, symbol);
        self.board.set(column, col);
        assert(self@.board =~= marked(g, column as int, row as int));
        assert(is_square(self@.board));
        if line_found(&self.board, symbol) {
            self.winner = Some(self.current_player);
            self.state = State::End;
        } else if board_full(&self.board) {
            self.winner = None;
            self.state = State::End;
        } else {
            self.switch_player();
        }
        true
    }

    fn add_player(&mut self, player: Player) -> (r: bool)
        requires
            game_wf(old(self)@),
        ensures
            r == !(seated(old(self)@.players, player@.id) || old(self)@.players.len() >= TIC_TAC_TOE_SEATS),
            final(self)@ == after_add(old(self)@, player@),
            game_wf(final(self)@),
    {
        let ghost g = self@;
        if self.find_seat(player.id).is_some() {
            return false;
        }
        if self.players.len() >= TIC_TAC_TOE_SEATS {
            return false;
        }
        proof {
            assert forall|j: int| 0 <= j < g.players.len() implies #[trigger] g.players[j].id != player@.id by {
                if g.players[j].id == player@.id {
                    assert(seated(g.players, player@.id));
                }
            }
        }
        if self.players.len() == 0 {
            let id = player.id;
            self.players.push(player.with_symbol(SYMBOL_FIRST));
            self.current_player = id;
        } else {
            self.players.push(player.with_symbol(SYMBOL_SECOND));
        }
        self.state = State::Playing;
        assert(self@.players =~= after_add(g, player@).players);
        proof {
            if g.players.len() > 0 {
                lemma_push_unique(g.players, PlayerView { symbol: SYMBOL_SECOND, ..player@ });
            }
        }
        true
    }

    fn remove_player(&mut self, id: i64)
        requires
            game_wf(old(self)@),
        ensures
            final(self)@ == after_remove(old(self)@, id),
            game_wf(final(self)@),
    {
        let ghost g = self@;
        match self.find_seat(id) {
            Some(k) => {
                self.players.remove(k);
                assert(self@.players =~= g.players.remove(k as int));
            },
            None => {},
        }
    }

    fn duplicate(&self) -> (r: TicTacToe)
        ensures
            r@ == self@,
    {
        let mut board: Vec<Vec<char>> = Vec::new();
        let mut c: usize = 0;
        while c < self.board.len()
            invariant
                c <= self@.board.len(),
                board@.len() == c,
                cells(board@) == self@.board.subrange(0, c as int),
            decreases self@.board.len() - c,
        {
            let col = copy_cells(&self.board[c]);
            assert(col@ == self@.board[c as int]);
            let ghost prev = board@;
            board.push(col);
            c = c + 1;
            assert forall|k: int| 0 <= k < c implies #[trigger] cells(board@)[k] == self@.board[k] by {
                if k < c - 1 {
                    assert(board@[k] == prev[k]);
                    assert(cells(prev)[k] == self@.board.subrange(0, c - 1)[k]);
                }
            }
            assert(cells(board@) =~= self@.board.subrange(0, c as int));
        }
        let mut players: Vec<Player> = Vec::new();
        let mut i: usize = 0;
        while i < self.players.len()
            invariant
                i <= self@.players.len(),
                players@.len() == i,
                views(players@) == self@.players.subrange(0, i as int),
            decreases self@.players.len() - i,
        {
            let ghost prev = players@;
            let q = self.players[i].duplicate();
            players.push(q);
            i = i + 1;
            assert forall|k: int| 0 <= k < i implies #[trigger] views(players@)[k]
                == self@.players[k] by {
                if k < i - 1 {
                    assert(players@[k] == prev[k]);
                    assert(views(prev)[k] == self@.players.subrange(0, i - 1)[k]);
                }
            }
            assert(views(players@) =~= self@.players.subrange(0, i as int));
        }
        let r = TicTacToe {
            id: self.id,
            board,
            players,
            state: self.state,
            winner: self.winner,
            last_player: self.last_player,
            current_player: self.current_player,
        };
        assert(r@.board =~= self@.board);
        assert(r@.players =~= self@.players);
        r
    }

    /// Wraps the session as a game.
    pub fn into_game(self) -> (r: Game)
        ensures
            r@ == self@,
    {
        Game::TicTacToe(self)
    }
}

/// A Sudoku session; its rules are not written yet, so no game holds one.
#[allow(dead_code)]
pub struct Sudoku {
    id: i32,
    board: Vec<Vec<char>>,
    players: Vec<Player>,
    state: State,
    winner: Option<i64>,
    last_player: i64,
    current_player: i64,
}

/// A game session of any supported kind.
pub enum Game {
    TicTacToe(TicTacToe),
}

impl View for Game {
    type V = GameView;

    open spec fn view(&self) -> GameView {
        match self {
            Game::TicTacToe(g) => g@,
        }
    }
}

impl Game {
    /// The session is well formed.
    pub open spec fn wf(&self) -> bool {
        game_wf(self@)
    }

    /// The session id.
    pub fn id(&self) -> (r: i32)
        ensures
            r == self@.id,
    {
        match self {
            Game::TicTacToe(g) => g.id,
        }
    }

    /// Plays the cell in `column` and `row` for the player holding the turn.
    ///
    /// Accepted iff the game is not over, the turn belongs to a seated player and the cell
    /// exists and is empty. After an accepted move, a completed column, row or diagonal of the
    /// mover's symbol ends the game with the mover as winner; else a full board ends it as a
    /// draw; else the turn passes on. A rejected move leaves the session unchanged.
    pub fn play(&mut self, column: usize, row: usize) -> (r: bool)
        requires
            old(self).wf(),
        ensures
            final(self).wf(),
            r == can_play(old(self)@, column as int, row as int),
            final(self)@ == after_play(old(self)@, column as int, row as int),
    {
        match self {
            Game::TicTacToe(g) => g.play(column, row),
        }
    }

    /// The board, as `board[column][row]`.
    pub fn board(&self) -> (r: Vec<Vec<char>>)
        ensures
            cells(r@) == self@.board,
    {
        match self {
            Game::TicTacToe(g) => g.duplicate().board,
        }
    }

    /// The seated players, in join order.
    pub fn players(&self) -> (r: Vec<Player>)
        ensures
            views(r@) == self@.players,
    {
        match self {
            Game::TicTacToe(g) => g.duplicate().players,
        }
    }

    /// The game has ended.
    pub fn is_over(&self) -> (r: bool)
        ensures
            r == (self@.state == State::End),
    {
        match self {
            Game::TicTacToe(g) => g.state == State::End,
        }
    }

    /// The winner, when there is one and it is still seated.
    pub fn winner(&self) -> (r: Option<&Player>)
        requires
            self.wf(),
        ensures
            opt_view(r) == winner_of(self@),
    {
        match self {
            Game::TicTacToe(g) => match g.winner {
                Some(w) => self.get_player(w),
                None => None,
            },
        }
    }

    /// Seats a player. Refused, with nothing changed, when the player is already seated or
    /// no seat is left; the first seated player takes the first symbol and the turn, later
    /// ones the second symbol.
    pub fn add_player(&mut self, player: Player) -> (r: bool)
        requires
            old(self).wf(),
        ensures
            final(self).wf(),
            r == !(seated(old(self)@.players, player@.id) || old(self)@.players.len() >= TIC_TAC_TOE_SEATS),
            final(self)@ == after_add(old(self)@, player@),
    {
        match self {
            Game::TicTacToe(g) => g.add_player(player),
        }
    }

    /// The seated player with the id.
    pub fn get_player(&self, id: i64) -> (r: Option<&Player>)
        requires
            self.wf(),
        ensures
            opt_view(r) == player_of(self@.players, id),
    {
        match self {
            Game::TicTacToe(g) => match g.find_seat(id) {
                Some(k) => Some(&g.players[k]),
                None => None,
            },
        }
    }

    /// A player with the id is seated.
    pub fn has_player(&self, id: i64) -> (r: bool)
        requires
            self.wf(),
        ensures
            r == seated(self@.players, id),
    {
        match self {
            Game::TicTacToe(g) => g.find_seat(id).is_some(),
        }
    }

    /// Unseats the player with the id, if seated.
    pub fn remove_player(&mut self, id: i64)
        requires
            old(self).wf(),
        ensures
            final(self).wf(),
            final(self)@ == after_remove(old(self)@, id),
    {
        match self {
            Game::TicTacToe(g) => g.remove_player(id),
        }
    }

    /// The player holding the turn, when that player is seated.
    pub fn current_player(&self) -> (r: Option<&Player>)
        requires
            self.wf(),
        ensures
            opt_view(r) == player_of(self@.players, self@.current_player),
    {
        match self {
            Game::TicTacToe(g) => self.get_player(g.current_player),
        }
    }

    /// The first player in join order that does not hold the turn.
    pub fn next_player(&self) -> (r: Option<&Player>)
        ensures
            opt_view(r) == next_of(self@),
    {
        let ghost v = self@;
        match self {
            Game::TicTacToe(g) => {
                assert(v == g@);
                let cur = g.current_player;
                let mut i: usize = 0;
                while i < g.players.len()
                    invariant
                        v == g@,
                        v == self@,
                        cur == v.current_player,
                        i <= v.players.len(),
                        forall|j: int| 0 <= j < i ==> #[trigger] v.players[j].id == cur,
                    decreases v.players.len() - i,
                {
                    if g.players[i].id != cur {
                        proof {
                            assert(is_first_other(v.players, cur, i as int));
                            let k = choose|k: int| is_first_other(v.players, cur, k);
                            lemma_first_other_unique(v.players, cur, i as int, k);
                            assert(next_of(v) == Some(v.players[i as int]));
                        }
                        return Some(&g.players[i]);
                    }
                    i = i + 1;
                }
                proof {
                    assert forall|k: int| !is_first_other(v.players, cur, k) by {
                        if 0 <= k < v.players.len() {
                            assert(v.players[k].id == cur);
                        }
                    }
                }
                None
            },
        }
    }

    /// The player list: each player's mention and symbol, crowned for the winner, struck
    /// through once the game is over, underlined for the player holding the turn, and
    /// separated by " vs ".
    pub fn player_list(&self) -> (r: String)
        requires
            self.wf(),
        ensures
            r@ == player_list_text(self@),
    {
        let crowned = match self.winner() {
            Some(p) => p.id,
            None => 0,
        };
        let ghost v = self@;
        let mut text = String::new();
        match self {
            Game::TicTacToe(g) => {
                let n = g.players.len();
                let mut i: usize = 0;
                while i < n
                    invariant
                        v == g@,
                        n == v.players.len(),
                        crowned == crowned_id(v),
                        i <= n,
                        text@ == entries_text(v, i as int),
                    decreases n - i,
                {
                    let ghost before = text@;
                    if i > 0 {
                        push_str(&mut text, " vs ");
                    }
                    let p = &g.players[i];
                    let m = p.mention();
                    if p.id == crowned {
                        push_str(&mut text, "\u{1F451} <b>");
                        push_str(&mut text, m.as_str());
                        push_str(&mut text, "</b>");
                    } else if g.state == State::End {
                        push_str(&mut text, "\u{1F921} <s>");
                        push_str(&mut text, m.as_str());
                        push_str(&mut text, "</s>");
                    } else if p.id == g.current_player {
                        push_str(&mut text, "<u>");
                        push_str(&mut text, m.as_str());
                        push_str(&mut text, "</u>");
                    } else {
                        push_str(&mut text, m.as_str());
                    }
                    push_str(&mut text, " (");
                    push_char(&mut text, p.symbol);
                    push_str(&mut text, ")");
                    proof {
                        let e = entry_text(v, v.players[i as int]);
                        if i > 0 {
                            assert(text@ =~= before + " vs "@ + e);
                        } else {
                            assert(text@ =~= e);
                        }
                    }
                    i = i + 1;
                }
            },
        }
        text
    }

    /// The number of seats.
    pub fn players_limit(&self) -> (r: usize)
        ensures
            r == TIC_TAC_TOE_SEATS,
    {
        match self {
            Game::TicTacToe(_) => TIC_TAC_TOE_SEATS,
        }
    }

    /// The message that shows the session: its title, a blank line and the player list.
    pub fn generate_text(&self) -> (r: String)
        requires
            self.wf(),
        ensures
            r@ == game_text(self@),
    {
        let mut text = String::new();
        push_str(&mut text, "<b>Tic Tac Toe</b>\n");
        push_str(&mut text, "\n");
        let list = self.player_list();
        push_str(&mut text, list.as_str());
        assert(text@ =~= game_text(self@));
        text
    }

    /// Replaces the board with an empty square one of the given size.
    pub fn generate_board(&mut self, size: RangeInclusive<usize>)
        requires
            old(self).wf(),
            size@.start == size@.end,
        ensures
            final(self).wf(),
            final(self)@ == (GameView { board: empty_board(size@.start as nat), ..old(self)@ }),
    {
        match self {
            Game::TicTacToe(g) => g.generate_board(size),
        }
    }

    /// Passes the turn to the first other player in join order, or to nobody.
    pub fn switch_player(&mut self)
        requires
            old(self).wf(),
        ensures
            final(self).wf(),
            final(self)@ == switched(old(self)@),
    {
        match self {
            Game::TicTacToe(g) => g.switch_player(),
        }
    }

    /// The number of seats still free.
    pub fn available_seats(&self) -> (r: usize)
        requires
            self.wf(),
        ensures
            r == TIC_TAC_TOE_SEATS - self@.players.len(),
    {
        match self {
            Game::TicTacToe(g) => TIC_TAC_TOE_SEATS - g.players.len(),
        }
    }

    /// Hands the turn to the id.
    pub fn set_current_player(&mut self, id: i64)
        requires
            old(self).wf(),
        ensures
            final(self).wf(),
            final(self)@ == (GameView { current_player: id, ..old(self)@ }),
    {
        match self {
            Game::TicTacToe(g) => {
                g.current_player = id;
            },
        }
    }

    /// A detached copy of the session.
    pub fn duplicate(&self) -> (r: Game)
        ensures
            r@ == self@,
    {
        match self {
            Game::TicTacToe(g) => Game::TicTacToe(g.duplicate()),
        }
    }

    /// The short label of the session, such as "Tic Tac Toe (ID: 7)".
    pub fn label(&self) -> (r: String)
        ensures
            r@ == label_text(self@),
    {
        let mut text = String::new();
        push_str(&mut text, "Tic Tac Toe (ID: ");
        push_int(&mut text, self.id() as i64);
        push_str(&mut text, ")");
        assert(text@ =~= label_text(self@));
        text
    }
}

} // verus!
