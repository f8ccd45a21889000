//! The single authoritative registry of players, lobbies, and rounds.
//!
//! The manager owns every `Player`, `Game`, and `Table` by value; rounds
//! refer to players through stable string ids resolved here. Each category
//! keeps its ids unique, and a lobby and a round never share an id: a
//! lobby is consumed when its round starts and comes back when it ends.

use vstd::prelude::*;

use crate::codec::str_eq;
use crate::errors::GameError;
use crate::game::{Game, Table};
use crate::player::Player;

verus! {

/// Index of the first player with this id, or -1.
pub open spec fn find_player_from(ps: Seq<Player>, id: Seq<char>, k: int) -> int
    decreases ps.len() - k when 0 <= k <= ps.len()
{
    if k >= ps.len() {
        -1
    } else if ps[k].id@ == id {
        k
    } else {
        find_player_from(ps, id, k + 1)
    }
}

pub open spec fn find_player(ps: Seq<Player>, id: Seq<char>) -> int {
    find_player_from(ps, id, 0)
}

pub proof fn lemma_find_player_from(ps: Seq<Player>, id: Seq<char>, k: int)
    requires
        0 <= k <= ps.len(),
    ensures
        ({
            let r = find_player_from(ps, id, k);
            &&& r == -1 || r >= 0
            &&& r == -1 ==> forall|j: int| k <= j < ps.len() ==> ps[j].id@ != id
            &&& r >= 0 ==> k <= r < ps.len() && ps[r].id@ == id
        }),
    decreases ps.len() - k,
{
    if k < ps.len() && ps[k].id@ != id {
        lemma_find_player_from(ps, id, k + 1);
    }
}

/// Index of the first lobby with this id, or -1.
pub open spec fn find_game_from(gs: Seq<Game>, id: u64, k: int) -> int
    decreases gs.len() - k when 0 <= k <= gs.len()
{
    if k >= gs.len() {
        -1
    } else if gs[k].id == id {
        k
    } else {
        find_game_from(gs, id, k + 1)
    }
}

pub open spec fn find_game(gs: Seq<Game>, id: u64) -> int {
    find_game_from(gs, id, 0)
}

pub proof fn lemma_find_game_from(gs: Seq<Game>, id: u64, k: int)
    requires
        0 <= k <= gs.len(),
    ensures
        ({
            let r = find_game_from(gs, id, k);
            &&& r == -1 || r >= 0
            &&& r == -1 ==> forall|j: int| k <= j < gs.len() ==> gs[j].id != id
            &&& r >= 0 ==> k <= r < gs.len() && gs[r].id == id
        }),
    decreases gs.len() - k,
{
    if k < gs.len() && gs[k].id != id {
        lemma_find_game_from(gs, id, k + 1);
    }
}

/// Index of the first round with this id, or -1.
pub open spec fn find_table_from(ts: Seq<Table>, id: u64, k: int) -> int
    decreases ts.len() - k when 0 <= k <= ts.len()
{
    if k >= ts.len() {
        -1
    } else if ts[k].game.id == id {
        k
    } else {
        find_table_from(ts, id, k + 1)
    }
}

pub open spec fn find_table(ts: Seq<Table>, id: u64) -> int {
    find_table_from(ts, id, 0)
}

pub proof fn lemma_find_table_from(ts: Seq<Table>, id: u64, k: int)
    requires
        0 <= k <= ts.len(),
    ensures
        ({
            let r = find_table_from(ts, id, k);
            &&& r == -1 || r >= 0
            &&& r == -1 ==> forall|j: int| k <= j < ts.len() ==> ts[j].game.id != id
            &&& r >= 0 ==> k <= r < ts.len() && ts[r].game.id == id
        }),
    decreases ts.len() - k,
{
    if k < ts.len() && ts[k].game.id != id {
        lemma_find_table_from(ts, id, k + 1);
    }
}

/// What `Manager::player_join` promises: the named lobby, if it exists,
/// the player is registered, and the lobby is not full, grows by that
/// player's id.
pub open spec fn player_join_post(
    m0: Manager,
    m1: Manager,
    game_id: u64,
    pid: Seq<char>,
    r: Result<(), GameError>,
) -> bool {
    &&& find_player(m0.players@, pid) == -1 ==> r == Err::<(), GameError>(
        GameError::NotFoundError,
    ) && m1 == m0
    &&& find_player(m0.players@, pid) >= 0 ==> ({
        let idx = find_game(m0.games@, game_id);
        &&& idx == -1 ==> r == Err::<(), GameError>(GameError::NotFoundError) && m1 == m0
        &&& idx >= 0 ==> ({
            let g = m0.games@[idx];
            &&& g.players@.len() >= 7 ==> r == Err::<(), GameError>(GameError::CapacityError)
                && m1.games@ == m0.games@ && m1.players == m0.players && m1.tables == m0.tables
            &&& g.players@.len() < 7 ==> r == Ok::<(), GameError>(()) && m1.players == m0.players
                && m1.tables == m0.tables && m1.games@.len() == m0.games@.len()
                && m1.games@[idx].id == g.id && m1.games@[idx].players@.len() == g.players@.len()
                + 1 && m1.games@[idx].players@.last()@ == pid && (forall|p: int|
                0 <= p < g.players@.len() ==> m1.games@[idx].players@[p] == g.players@[p]) && (
            forall|j: int|
                0 <= j < m0.games@.len() && j != idx ==> m1.games@[j] == m0.games@[j])
        })
    })
}

pub struct Manager {
    pub players: Vec<Player>,
    pub games: Vec<Game>,
    pub tables: Vec<Table>,
}

pub open spec fn player_ids(m: &Manager) -> Seq<Seq<char>> {
    m.players@.map_values(|p: Player| p.id@)
}

pub open spec fn game_ids(m: &Manager) -> Seq<u64> {
    m.games@.map_values(|g: Game| g.id)
}

pub open spec fn table_ids(m: &Manager) -> Seq<u64> {
    m.tables@.map_values(|t: Table| t.game.id)
}

impl Manager {
    /// Id uniqueness per category, lobby/round exclusivity, and the
    /// well-formedness of every lobby and round.
    pub open spec fn wf(&self) -> bool {
        &&& player_ids(self).no_duplicates()
        &&& game_ids(self).no_duplicates()
        &&& table_ids(self).no_duplicates()
        &&& forall|i: int, j: int|
            0 <= i < game_ids(self).len() && 0 <= j < table_ids(self).len() ==> game_ids(self)[i]
                != table_ids(self)[j]
        &&& forall|i: int| 0 <= i < self.games@.len() ==> (#[trigger] self.games@[i]).wf()
        &&& forall|i: int| 0 <= i < self.tables@.len() ==> (#[trigger] self.tables@[i]).wf()
    }

    pub fn new_with_games(game_size: usize) -> (m: Manager)
        ensures
            m.players@.len() == 0,
            m.tables@.len() == 0,
            m.games@.len() == game_size,
            forall|i: int| 0 <= i < game_size ==> (#[trigger] m.games@[i]).id == i,
            forall|i: int| 0 <= i < game_size ==> (#[trigger] m.games@[i]).players@.len() == 0,
            m.wf(),
    {
        let mut games: Vec<Game> = Vec::new();
        let mut i: usize = 0;
        while i < game_size
            invariant
                i <= game_size,
                games@.len() == i,
                forall|j: int| 0 <= j < i ==> (#[trigger] games@[j]).id == j,
                forall|j: int| 0 <= j < i ==> (#[trigger] games@[j]).players@.len() == 0,
            decreases game_size - i,
        {
            games.push(Game::new(i as u64));
            i += 1;
        }
        let m = Manager { games, players: Vec::new(), tables: Vec::new() };
        proof {
            assert forall|a: int, b: int|
                0 <= a < game_ids(&m).len() && 0 <= b < game_ids(&m).len() && a != b implies
                game_ids(&m)[a] != game_ids(&m)[b] by {
                assert(game_ids(&m)[a] == m.games@[a].id);
                assert(game_ids(&m)[b] == m.games@[b].id);
            }
        }
        m
    }

    /// Whether a player with this id is registered.
    pub fn has_player(&self, id: &str) -> (r: bool)
        ensures
            r == (find_player(self.players@, id@) >= 0),
    {
        match self.find_player_index(id) {
            Some(_) => true,
            None => false,
        }
    }

    pub(crate) fn find_player_index(&self, id: &str) -> (r: Option<usize>)
        ensures
            r is Some <==> find_player(self.players@, id@) >= 0,
            r is Some ==> r->0 as int == find_player(self.players@, id@),
    {
        let n = self.players.len();
        let mut k: usize = 0;
        while k < n
            invariant
                n == self.players@.len(),
                k <= n,
                find_player(self.players@, id@) == find_player_from(self.players@, id@, k as int),
            decreases n - k,
        {
            if str_eq(self.players[k].id.as_str(), id) {
                return Some(k);
            }
            k += 1;
        }
        None
    }

    /// The display name of the player with this id.
    pub fn get_player_name(&self, id: &str) -> (r: Option<String>)
        ensures
            r is Some <==> find_player(self.players@, id@) >= 0,
            r is Some ==> r->0@ == self.players@[find_player(self.players@, id@)].name@,
    {
        match self.find_player_index(id) {
            Some(i) => {
                proof {
                    lemma_find_player_from(self.players@, id@, 0);
                }
                Some(self.players[i].name.clone())
            },
            None => None,
        }
    }

    /// Registers a player. Ids are assigned once: a second registration
    /// under the same id is refused and changes nothing.
    pub fn add_player(&mut self, player: Player) -> (r: Result<(), GameError>)
        requires
            old(self).wf(),
        ensures
            final(self).wf(),
            find_player(old(self).players@, player.id@) >= 0 ==> r == Err::<(), GameError>(
                GameError::StateError,
            ) && *final(self) == *old(self),
            find_player(old(self).players@, player.id@) == -1 ==> r == Ok::<(), GameError>(())
                && final(self).players@ == old(self).players@.push(player) && final(self).games
                == old(self).games && final(self).tables == old(self).tables,
    {
        if self.has_player(player.id.as_str()) {
            return Err(GameError::StateError);
        }
        proof {
            lemma_find_player_from(self.players@, player.id@, 0);
        }
        let ghost ps0 = self.players@;
        let ghost pold = player_ids(self);
        self.players.push(player);
        proof {
            assert(!pold.contains(player.id@)) by {
                if pold.contains(player.id@) {
                    let j = choose|j: int| 0 <= j < pold.len() && pold[j] == player.id@;
                    assert(pold[j] == ps0[j].id@);
                    assert(ps0[j].id@ == player.id@);
                }
            }
            assert(player_ids(self) =~= pold.push(player.id@));
            lemma_no_dup_push(pold, player.id@);
        }
        Ok(())
    }

    /// Removes and returns the player with this id.
    pub fn remove_player_by_id(&mut self, id: String) -> (r: Result<Player, GameError>)
        requires
            old(self).wf(),
        ensures
            final(self).wf(),
            ({
                let idx = find_player(old(self).players@, id@);
                &&& idx == -1 ==> r == Err::<Player, GameError>(GameError::NotFoundError)
                    && *final(self) == *old(self)
                &&& idx >= 0 ==> r == Ok::<Player, GameError>(old(self).players@[idx]) && final(self).players@ == old(self).players@.remove(idx) && final(self).games == old(self).games && final(self).tables == old(self).tables
            }),
    {
        let idx = match self.find_player_index(id.as_str()) {
            Some(i) => i,
            None => {
                return Err(GameError::NotFoundError);
            },
        };
        proof {
            lemma_find_player_from(self.players@, id@, 0);
        }
        let ghost ps0 = self.players@;
        let p = self.players.remove(idx);
        proof {
            assert(player_ids(self) =~= ps0.map_values(|q: Player| q.id@).remove(idx as int));
            lemma_no_dup_remove(ps0.map_values(|q: Player| q.id@), idx as int);
        }
        Ok(p)
    }

    /// The first lobby in the registry, for a caller that takes any
    /// available game.
    pub fn first_game_available(&mut self) -> (r: Result<&mut Game, GameError>)
        ensures
            old(self).games@.len() == 0 ==> r is Err && r->Err_0 == GameError::NotFoundError
                && *final(self) == *old(self),
            old(self).games@.len() > 0 ==> r is Ok && ({
                let g = r->Ok_0;
                &&& *g == old(self).games@[0]
                &&& final(self).games@ == old(self).games@.update(0, *final(g))
                &&& final(self).players == old(self).players
                &&& final(self).tables == old(self).tables
            }),
    {
        if self.games.len() == 0 {
            return Err(GameError::NotFoundError);
        }
        Ok(&mut self.games[0])
    }

    /// The ids of the lobbies currently accepting players.
    pub fn show_games_id_available(&self) -> (r: Vec<u64>)
        ensures
            r@ == game_ids(self),
    {
        let n = self.games.len();
        let mut out: Vec<u64> = Vec::new();
        let mut k: usize = 0;
        while k < n
            invariant
                n == self.games@.len(),
                k <= n,
                out@.len() == k,
                forall|j: int| 0 <= j < k ==> out@[j] == game_ids(self)[j],
            decreases n - k,
        {
            out.push(self.games[k].get_id());
            k += 1;
        }
        proof {
            assert(out@ =~= game_ids(self));
        }
        out
    }

    /// Removes and returns the lobby with this id, making the caller its
    /// exclusive owner.
    pub fn drop_game(&mut self, id: u64) -> (r: Result<Game, GameError>)
        requires
            old(self).wf(),
        ensures
            final(self).wf(),
            ({
                let idx = find_game(old(self).games@, id);
                &&& idx == -1 ==> r == Err::<Game, GameError>(GameError::NotFoundError) && *final(self) == *old(self)
                &&& idx >= 0 ==> r == Ok::<Game, GameError>(old(self).games@[idx]) && final(self).games@ == old(self).games@.remove(idx) && final(self).players == old(self).players && final(self).tables == old(self).tables
            }),
    {
        let idx = match self.find_game_index(id) {
            Some(i) => i,
            None => {
                return Err(GameError::NotFoundError);
            },
        };
        proof {
            lemma_find_game_from(self.games@, id, 0);
        }
        let ghost gs0 = self.games@;
        let g = self.games.remove(idx);
        proof {
            assert(game_ids(self) =~= gs0.map_values(|x: Game| x.id).remove(idx as int));
            lemma_no_dup_remove(gs0.map_values(|x: Game| x.id), idx as int);
        }
        Ok(g)
    }

    pub(crate) fn find_game_index(&self, id: u64) -> (r: Option<usize>)
        ensures
            r is Some <==> find_game(self.games@, id) >= 0,
            r is Some ==> r->0 as int == find_game(self.games@, id),
    {
        let n = self.games.len();
        let mut k: usize = 0;
        while k < n
            invariant
                n == self.games@.len(),
                k <= n,
                find_game(self.games@, id) == find_game_from(self.games@, id, k as int),
            decreases n - k,
        {
            if self.games[k].id == id {
                return Some(k);
            }
            k += 1;
        }
        None
    }

    pub(crate) fn find_table_index(&self, id: u64) -> (r: Option<usize>)
        ensures
            r is Some <==> find_table(self.tables@, id) >= 0,
            r is Some ==> r->0 as int == find_table(self.tables@, id),
    {
        let n = self.tables.len();
        let mut k: usize = 0;
        while k < n
            invariant
                n == self.tables@.len(),
                k <= n,
                find_table(self.tables@, id) == find_table_from(self.tables@, id, k as int),
            decreases n - k,
        {
            if self.tables[k].game.id == id {
                return Some(k);
            }
            k += 1;
        }
        None
    }

    /// Whether a round with this id is being played.
    pub fn has_table(&self, id: u64) -> (r: bool)
        ensures
            r == (find_table(self.tables@, id) >= 0),
    {
        match self.find_table_index(id) {
            Some(_) => true,
            None => false,
        }
    }

    /// Returns an ended round's lobby to the pool.
    pub fn realocate_table_to_game(&mut self, table: Table)
        requires
            old(self).wf(),
            table.game.wf(),
            find_game(old(self).games@, table.game.id) == -1,
            find_table(old(self).tables@, table.game.id) == -1,
        ensures
            final(self).wf(),
            final(self).games@ == old(self).games@.push(table.game),
            final(self).players == old(self).players,
            final(self).tables == old(self).tables,
    {
        proof {
            lemma_find_game_from(self.games@, table.game.id, 0);
            lemma_find_table_from(self.tables@, table.game.id, 0);
        }
        let ghost gs0 = self.games@;
        self.games.push(table.game);
        proof {
            assert(game_ids(self) =~= gs0.map_values(|x: Game| x.id).push(table.game.id));
            lemma_no_dup_push(gs0.map_values(|x: Game| x.id), table.game.id);
        }
    }

    /// Seats a round at the table registry.
    pub fn add_table(&mut self, table: Table)
        requires
            old(self).wf(),
            table.wf(),
            find_game(old(self).games@, table.game.id) == -1,
            find_table(old(self).tables@, table.game.id) == -1,
        ensures
            final(self).wf(),
            final(self).tables@ == old(self).tables@.push(table),
            final(self).players == old(self).players,
            final(self).games == old(self).games,
    {
        proof {
            lemma_find_game_from(self.games@, table.game.id, 0);
            lemma_find_table_from(self.tables@, table.game.id, 0);
        }
        let ghost ts0 = self.tables@;
        self.tables.push(table);
        proof {
            assert(table_ids(self) =~= ts0.map_values(|x: Table| x.game.id).push(table.game.id));
            lemma_no_dup_push(ts0.map_values(|x: Table| x.game.id), table.game.id);
        }
    }

    /// Ends the round with this id: discards its deck and hands and
    /// returns its lobby to the pool.
    pub fn stop_game(&mut self, id: u64) -> (r: Result<(), GameError>)
        requires
            old(self).wf(),
        ensures
            final(self).wf(),
            ({
                let idx = find_table(old(self).tables@, id);
                &&& idx == -1 ==> r == Err::<(), GameError>(GameError::NotFoundError) && *final(self) == *old(self)
                &&& idx >= 0 ==> r == Ok::<(), GameError>(()) && final(self).tables@ == old(self).tables@.remove(idx) && final(self).games@ == old(self).games@.push(
                    old(self).tables@[idx].game,
                ) && final(self).players == old(self).players
            }),
    {
        let idx = match self.find_table_index(id) {
            Some(i) => i,
            None => {
                return Err(GameError::NotFoundError);
            },
        };
        proof {
            lemma_find_table_from(self.tables@, id, 0);
        }
        let ghost ts0 = self.tables@;
        let ghost gs0 = self.games@;
        let t = self.tables.remove(idx);
        proof {
            assert(table_ids(self) =~= ts0.map_values(|x: Table| x.game.id).remove(idx as int));
            lemma_no_dup_remove(ts0.map_values(|x: Table| x.game.id), idx as int);
        }
        let g = t.drop_table();
        proof {
            assert(ts0[idx as int].game == g);
            assert(table_ids(old(self))[idx as int] == g.id);
            assert(find_game(self.games@, g.id) == -1) by {
                lemma_find_game_from(self.games@, g.id, 0);
                if find_game(self.games@, g.id) >= 0 {
                    let a = find_game(self.games@, g.id);
                    assert(gs0[a].id == g.id);
                    assert(game_ids(old(self))[a] == gs0[a].id);
                    assert(game_ids(old(self))[a] == g.id);
                }
            }
        }
        let ghost gsmid = self.games@;
        let ghost tsnew = self.tables@;
        self.games.push(g);
        proof {
            let goldids = gsmid.map_values(|x: Game| x.id);
            assert(game_ids(self) =~= goldids.push(g.id));
            assert(!goldids.contains(g.id)) by {
                if goldids.contains(g.id) {
                    let a = choose|a: int| 0 <= a < goldids.len() && goldids[a] == g.id;
                    assert(gsmid[a].id == g.id);
                    lemma_find_game_from(gsmid, g.id, 0);
                    assert(find_game(gsmid, g.id) == -1);
                }
            }
            lemma_no_dup_push(goldids, g.id);
            let tids = table_ids(self);
            assert(tids =~= ts0.map_values(|x: Table| x.game.id).remove(idx as int));
            assert forall|i: int, j: int|
                0 <= i < game_ids(self).len() && 0 <= j < tids.len() implies game_ids(self)[i]
                != tids[j] by {
                let n = gsmid.len() as int;
                let j0: int = if j < idx { j } else { j + 1 };
                assert(tids[j] == ts0[j0].game.id);
                assert(table_ids(old(self))[j0] == ts0[j0].game.id);
                if i < n {
                    assert(game_ids(self)[i] == gs0[i].id);
                    assert(game_ids(old(self))[i] == gs0[i].id);
                } else {
                    assert(game_ids(self)[i] == g.id);
                    assert(table_ids(old(self))[idx as int] == g.id);
                }
            }
            assert forall|i: int| 0 <= i < self.games@.len() implies (
            #[trigger] self.games@[i]).wf() by {
                if i < gsmid.len() {
                    assert(self.games@[i] == gs0[i]);
                } else {
                    assert(self.games@[i] == g);
                    assert(old(self).tables@[idx as int].wf());
                }
            }
            assert forall|i: int| 0 <= i < self.tables@.len() implies (
            #[trigger] self.tables@[i]).wf() by {
                let i0: int = if i < idx { i } else { i + 1 };
                assert(self.tables@[i] == ts0[i0]);
                assert(old(self).tables@[i0].wf());
            }
        }
        Ok(())
    }

    /// Seats a registered player in a lobby, capacity-checked.
    pub fn player_join(&mut self, game_id: u64, player_id: String) -> (r: Result<(), GameError>)
        requires
            old(self).wf(),
        ensures
            final(self).wf(),
            player_join_post(*old(self), *final(self), game_id, player_id@, r),
    {
        if !self.has_player(player_id.as_str()) {
            return Err(GameError::NotFoundError);
        }
        let idx = match self.find_game_index(game_id) {
            Some(i) => i,
            None => {
                return Err(GameError::NotFoundError);
            },
        };
        proof {
            lemma_find_game_from(self.games@, game_id, 0);
        }
        let ghost gs0 = self.games@;
        let mut g = self.games.remove(idx);
        let res = g.player_join(player_id);
        self.games.insert(idx, g);
        proof {
            crate::game::lemma_remove_insert(gs0, idx as int, g);
            assert(game_ids(self) =~= gs0.map_values(|x: Game| x.id));
            if gs0[idx as int].players@.len() >= 7 {
                crate::game::lemma_update_same(gs0, idx as int);
            }
        }
        res
    }
}

impl Default for Manager {
    /// An empty registry.
    fn default() -> (m: Manager)
        ensures
            m.players@.len() == 0,
            m.games@.len() == 0,
            m.tables@.len() == 0,
            m.wf(),
    {
        Manager { players: Vec::new(), games: Vec::new(), tables: Vec::new() }
    }
}

/// Removing an element keeps the remaining elements distinct.
pub proof fn lemma_no_dup_remove<A>(s: Seq<A>, i: int)
    requires
        0 <= i < s.len(),
        s.no_duplicates(),
    ensures
        s.remove(i).no_duplicates(),
{
    let t = s.remove(i);
    assert forall|a: int, b: int| 0 <= a < t.len() && 0 <= b < t.len() && a != b implies t[a]
        != t[b] by {
        let a0 = if a < i {
            a
        } else {
            a + 1
        };
        let b0 = if b < i {
            b
        } else {
            b + 1
        };
        assert(t[a] == s[a0]);
        assert(t[b] == s[b0]);
    }
}

/// Appending a fresh element keeps the elements distinct.
pub proof fn lemma_no_dup_push<A>(s: Seq<A>, x: A)
    requires
        s.no_duplicates(),
        !s.contains(x),
    ensures
        s.push(x).no_duplicates(),
{
    let t = s.push(x);
    assert forall|a: int, b: int| 0 <= a < t.len() && 0 <= b < t.len() && a != b implies t[a]
        != t[b] by {
        let n = s.len() as int;
        if a < n && b < n {
        } else if a == n {
            assert(t[b] == s[b]);
            assert(s.contains(s[b]));
        } else if b == n {
            assert(t[a] == s[a]);
            assert(s.contains(s[a]));
        }
    }
}

} // verus!
