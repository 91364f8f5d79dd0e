//! The registry of active game sessions.

use vstd::prelude::*;

use crate::games::{Game, GameView, game_wf};

verus! {

/// The registry, as plain values.
pub struct ManagerView {
    /// The stored sessions, in the order they were added.
    pub games: Seq<GameView>,
    /// The last id handed out or stored.
    pub last_id: i32,
}

/// `k` is the first position holding a session with the id.
pub open spec fn is_first_with(gs: Seq<GameView>, id: i32, k: int) -> bool {
    &&& 0 <= k < gs.len()
    &&& gs[k].id == id
    &&& forall|j: int| 0 <= j < k ==> #[trigger] gs[j].id != id
}

/// Some stored session has the id.
pub open spec fn holds(gs: Seq<GameView>, id: i32) -> bool {
    exists|k: int| is_first_with(gs, id, k)
}

/// The first position holding a session with the id (meaningful when `holds(gs, id)`).
pub open spec fn first_with(gs: Seq<GameView>, id: i32) -> int {
    choose|k: int| is_first_with(gs, id, k)
}

/// The first stored session with the id.
pub open spec fn found(m: ManagerView, id: i32) -> Option<GameView> {
    if holds(m.games, id) {
        Some(m.games[first_with(m.games, id)])
    } else {
        None
    }
}

/// The registry after an id is handed out.
pub open spec fn after_new_id(m: ManagerView) -> ManagerView {
    ManagerView { last_id: (m.last_id + 1) as i32, ..m }
}

/// The registry after a session is added at the end.
pub open spec fn after_add_game(m: ManagerView, g: GameView) -> ManagerView {
    ManagerView {
        games: m.games.push(g),
        last_id: if g.id > m.last_id { g.id } else { m.last_id },
    }
}

/// The registry after the first session with the id of `g` is replaced by `g`;
/// unchanged when none has that id.
pub open spec fn after_update(m: ManagerView, g: GameView) -> ManagerView {
    if holds(m.games, g.id) {
        ManagerView { games: m.games.update(first_with(m.games, g.id), g), ..m }
    } else {
        m
    }
}

/// The registry after every session with the id is removed.
pub open spec fn after_remove_game(m: ManagerView, id: i32) -> ManagerView {
    ManagerView { games: m.games.filter(|g: GameView| g.id != id), ..m }
}

/// A registry whose sessions are well formed and whose ids were all handed out already.
pub open spec fn manager_wf(m: ManagerView) -> bool {
    forall|k: int| 0 <= k < m.games.len() ==> game_wf(#[trigger] m.games[k]) && m.games[k].id <= m.last_id
}

/// A change of the registry.
pub enum ManagerOp {
    NewId,
    Add(GameView),
    Update(GameView),
    Remove(i32),
}

/// The registry after one change.
pub open spec fn step(m: ManagerView, op: ManagerOp) -> ManagerView {
    match op {
        ManagerOp::NewId => after_new_id(m),
        ManagerOp::Add(g) => after_add_game(m, g),
        ManagerOp::Update(g) => after_update(m, g),
        ManagerOp::Remove(id) => after_remove_game(m, id),
    }
}

/// The registry after a run of changes, in order.
pub open spec fn run(m: ManagerView, ops: Seq<ManagerOp>) -> ManagerView
    decreases ops.len(),
{
    if ops.len() == 0 {
        m
    } else {
        run(step(m, ops[0]), ops.drop_first())
    }
}

/// No change before the counter overflows lowers it.
pub open spec fn counter_fits(m: ManagerView, ops: Seq<ManagerOp>) -> bool
    decreases ops.len(),
{
    if ops.len() == 0 {
        true
    } else {
        (ops[0] is NewId ==> m.last_id < i32::MAX) && counter_fits(step(m, ops[0]), ops.drop_first())
    }
}

proof fn lemma_run_keeps_counter(m: ManagerView, ops: Seq<ManagerOp>)
    requires
        counter_fits(m, ops),
    ensures
        run(m, ops).last_id >= m.last_id,
    decreases ops.len(),
{
    if ops.len() > 0 {
        lemma_run_keeps_counter(step(m, ops[0]), ops.drop_first());
    }
}

/// Ids handed out by `new_id` strictly increase, whatever sessions are added, updated or
/// removed between two calls.
pub proof fn lemma_new_ids_increase(m: ManagerView, ops: Seq<ManagerOp>)
    requires
        m.last_id < i32::MAX,
        counter_fits(after_new_id(m), ops),
        run(after_new_id(m), ops).last_id < i32::MAX,
    ensures
        run(after_new_id(m), ops).last_id + 1 > m.last_id + 1,
{
    lemma_run_keeps_counter(after_new_id(m), ops);
}

/// Storing back the copy that `get_game` handed out, with nothing changed between, leaves the
/// registry as it was.
pub proof fn lemma_update_of_get_is_noop(m: ManagerView, id: i32)
    requires
        found(m, id) is Some,
    ensures
        after_update(m, found(m, id).unwrap()) == m,
{
    let k = first_with(m.games, id);
    let g = m.games[k];
    assert(is_first_with(m.games, id, k));
    assert(g.id == id);
    assert(m.games.update(k, g) =~= m.games);
}

proof fn lemma_first_unique(gs: Seq<GameView>, id: i32, i: int, k: int)
    requires
        is_first_with(gs, id, i),
        is_first_with(gs, id, k),
    ensures
        i == k,
{
    if i < k {
        assert(gs[i].id != id);
    } else if k < i {
        assert(gs[k].id != id);
    }
}

/// The active sessions, with the counter that issues their ids.
pub struct GameManager {
    active_games: Vec<Game>,
    last_id: i32,
}

/// The sessions of a list, as plain values.
pub open spec fn game_views(gs: Seq<Game>) -> Seq<GameView> {
    gs.map_values(|g: Game| g@)
}

impl View for GameManager {
    type V = ManagerView;

    closed spec fn view(&self) -> ManagerView {
        ManagerView { games: game_views(self.active_games@), last_id: self.last_id }
    }
}

impl GameManager {
    /// The registry is well formed.
    pub open spec fn wf(&self) -> bool {
        manager_wf(self@)
    }

    /// An empty registry that has handed out no id.
    pub fn new() -> (r: GameManager)
        ensures
            r.wf(),
            r@ == (ManagerView { games: Seq::empty(), last_id: 0 }),
    {
        let r = GameManager { active_games: Vec::new(), last_id: 0 };
        assert(r@.games =~= Seq::<GameView>::empty());
        r
    }

    /// The last id handed out or stored.
    pub fn last_id(&self) -> (r: i32)
        ensures
            r == self@.last_id,
    {
        self.last_id
    }

    /// Hands out a fresh id: one more than the last one handed out or stored.
    pub fn new_id(&mut self) -> (r: i32)
        requires
            old(self).wf(),
            old(self)@.last_id < i32::MAX,
        ensures
            final(self).wf(),
            r == old(self)@.last_id + 1,
            final(self)@ == after_new_id(old(self)@),
    {
        self.last_id = self.last_id + 1;
        self.last_id
    }

    /// Adds a session at the end.
    pub fn add_game(&mut self, game: Game)
        requires
            old(self).wf(),
            game.wf(),
        ensures
            final(self).wf(),
            final(self)@ == after_add_game(old(self)@, game@),
    {
        let ghost m = self@;
        let id = game.id();
        if id > self.last_id {
            self.last_id = id;
        }
        self.active_games.push(game);
        assert(self@.games =~= m.games.push(game@));
    }

    fn find(&self, game_id: i32) -> (r: Option<usize>)
        ensures
            r is Some <==> holds(self@.games, game_id),
            r matches Some(k) ==> k < self@.games.len() && first_with(self@.games, game_id) == k,
    {
        let mut i: usize = 0;
        while i < self.active_games.len()
            invariant
                i <= self@.games.len(),
                forall|j: int| 0 <= j < i ==> #[trigger] self@.games[j].id != game_id,
            decreases self@.games.len() - i,
        {
            if self.active_games[i].id() == game_id {
                proof {
                    assert(is_first_with(self@.games, game_id, i as int));
                    let k = choose|k: int| is_first_with(self@.games, game_id, k);
                    lemma_first_unique(self@.games, game_id, i as int, k);
                }
                return Some(i);
            }
            i = i + 1;
        }
        proof {
            assert forall|k: int| !is_first_with(self@.games, game_id, k) by {
                if 0 <= k < self@.games.len() {
                    assert(self@.games[k].id != game_id);
                }
            }
        }
        None
    }

    /// A detached copy of the first session with the id; changing it changes nothing here
    /// until it is handed to `update_game`.
    pub fn get_game(&self, game_id: i32) -> (r: Option<Game>)
        requires
            self.wf(),
        ensures
            r is Some <==> holds(self@.games, game_id),
            r matches Some(g) ==> g.wf() && Some(g@) == found(self@, game_id),
    {
        match self.find(game_id) {
            Some(k) => {
                assert(self@.games[k as int] == self.active_games@[k as int]@);
                Some(self.active_games[k].duplicate())
            },
            None => None,
        }
    }

    /// Replaces the first stored session with the id of `game` by `game`. Returns false, with
    /// nothing changed, when no stored session has that id. Changes made meanwhile through
    /// another copy are overwritten: the last update wins.
    pub fn update_game(&mut self, game: Game) -> (r: bool)
        requires
            old(self).wf(),
            game.wf(),
        ensures
            final(self).wf(),
            r == holds(old(self)@.games, game@.id),
            final(self)@ == after_update(old(self)@, game@),
    {
        let ghost m = self@;
        match self.find(game.id()) {
            Some(k) => {
                assert(m.games[k as int].id == game@.id);
                self.active_games.set(k, game);
                assert(self@.games =~= m.games.update(k as int, game@));
                true
            },
            None => false,
        }
    }

    /// Removes every stored session with the id of `game`.
    pub fn remove_game(&mut self, game: Game)
        requires
            old(self).wf(),
        ensures
            final(self).wf(),
            final(self)@ == after_remove_game(old(self)@, game@.id),
    {
        let ghost m = self@;
        let id = game.id();
        let mut kept: Vec<Game> = Vec::new();
        let mut games = Vec::new();
        std::mem::swap(&mut games, &mut self.active_games);
        assert(game_views(games@) == m.games);
        let mut i: usize = 0;
        while i < games.len()
            invariant
                i <= games@.len(),
                game_views(games@) == m.games,
                game_views(kept@) == m.games.subrange(0, i as int).filter(|g: GameView| g.id != id),
            decreases games@.len() - i,
        {
            let ghost prev = kept@;
            proof {
                assert(m.games.subrange(0, i as int + 1).drop_last() =~= m.games.subrange(0, i as int));
                reveal_with_fuel(Seq::filter, 1);
            }
            if games[i].id() != id {
                kept.push(games[i].duplicate());
                assert(game_views(kept@) =~= game_views(prev).push(m.games[i as int]));
            }
            i = i + 1;
        }
        assert(m.games.subrange(0, i as int) =~= m.games);
        self.active_games = kept;
        assert(self@.games == m.games.filter(|g: GameView| g.id != id));
        proof {
            assert forall|k: int| 0 <= k < self@.games.len() implies game_wf(#[trigger] self@.games[k])
                && self@.games[k].id <= m.last_id by {
                lemma_filter_member(m.games, id, k);
            }
        }
    }
}

proof fn lemma_filter_member(gs: Seq<GameView>, id: i32, k: int)
    requires
        0 <= k < gs.filter(|g: GameView| g.id != id).len(),
    ensures
        gs.contains(gs.filter(|g: GameView| g.id != id)[k]),
{
    let f = gs.filter(|g: GameView| g.id != id);
    assert(f.contains(f[k]));
    gs.lemma_filter_contains_rev(|g: GameView| g.id != id, f[k]);
}

} // verus!
