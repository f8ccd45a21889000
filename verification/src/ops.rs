//! The manager's round operations: starting a round from a lobby, and the
//! hit / stand moves with the automatic stop of a finished round.
//!
//! Each operation either fully applies or fully fails; a failed move
//! touches nothing. A round whose deck runs dry before every hand stands
//! therefore ends through stands or an explicit stop, never through the
//! failed draw itself.

use vstd::prelude::*;

use crate::cards::fresh_cards;
use crate::errors::GameError;
use crate::game::{
    deck_after_draws, find_hand, is_hit_result, is_second_dealt, lemma_update_same, Table,
};
use crate::manager::{
    find_game, find_table, game_ids, lemma_find_game_from, lemma_find_table_from,
    lemma_no_dup_push, lemma_no_dup_remove, table_ids, Manager,
};
use crate::player::{hit_points, stood};

verus! {

/// What `Manager::start_game` promises: the named lobby, if it holds at
/// least two players, is consumed into a freshly dealt round.
pub open spec fn start_game_post(
    m0: Manager,
    m1: Manager,
    gid: u64,
    nth: usize,
    ts: u64,
    r: Result<(), GameError>,
) -> bool {
    let idx = find_game(m0.games@, gid);
    &&& m1.players == m0.players
    &&& idx == -1 ==> r == Err::<(), GameError>(GameError::NotFoundError) && m1 == m0
    &&& idx >= 0 ==> ({
        let g = m0.games@[idx];
        &&& g.players@.len() < 2 ==> r == Err::<(), GameError>(GameError::CapacityError) && m1
            == m0
        &&& g.players@.len() >= 2 ==> ({
            let k = g.players@.len() as int;
            let d0 = fresh_cards(nth as nat);
            &&& r == Ok::<(), GameError>(())
            &&& m1.games@ == m0.games@.remove(idx)
            &&& m1.tables@.len() == m0.tables@.len() + 1
            &&& forall|j: int| 0 <= j < m0.tables@.len() ==> m1.tables@[j] == m0.tables@[j]
            &&& ({
                let t = m1.tables@.last();
                &&& t.game == g
                &&& t.deck.cards@ == deck_after_draws(d0, ts, (2 * k) as nat)
                &&& t.deck.cards@.len() == nth * 52 - 2 * k
                &&& t.players_with_hand@.len() == k
                &&& forall|j: int|
                    0 <= j < k ==> is_second_dealt(
                        #[trigger] t.players_with_hand@[j],
                        g.players@[j]@,
                        d0,
                        ts,
                        k,
                        j,
                    )
            })
        })
    })
}

/// Same round, judged by field values and hand views.
pub open spec fn table_view_eq(t1: Table, t0: Table) -> bool {
    &&& t1.game == t0.game
    &&& t1.deck == t0.deck
    &&& t1.players_with_hand@ == t0.players_with_hand@
}

/// The effect of one hit on a table: the seeded card moved from the deck
/// into hand `idx2`, everything else in place.
pub open spec fn is_hit_table(t1: Table, t0: Table, idx2: int, ts: u64) -> bool {
    let i = ts as int % t0.deck.cards@.len() as int;
    let c = t0.deck.cards@[i];
    &&& t1.game == t0.game
    &&& t1.deck.cards@ == t0.deck.cards@.remove(i)
    &&& t1.players_with_hand@.len() == t0.players_with_hand@.len()
    &&& is_hit_result(t1.players_with_hand@[idx2], t0.players_with_hand@[idx2], c)
    &&& forall|j: int|
        0 <= j < t0.players_with_hand@.len() && j != idx2 ==> t1.players_with_hand@[j]
            == t0.players_with_hand@[j]
}

/// After the hit at `idx2`, would every hand of `t0` be standing?
pub open spec fn all_standing_after_hit(t0: Table, idx2: int, ts: u64) -> bool {
    let hands = t0.players_with_hand@;
    let i = ts as int % t0.deck.cards@.len() as int;
    let c = t0.deck.cards@[i];
    &&& hit_points(hands[idx2].points as int, c) >= 21
    &&& forall|j: int| 0 <= j < hands.len() && j != idx2 ==> (#[trigger] hands[j]).is_standing
}

/// What `Manager::hit_player` promises, the automatic stop included: the
/// move that leaves every hand standing removes the round and returns its
/// lobby to the pool.
pub open spec fn hit_player_post(
    m0: Manager,
    m1: Manager,
    gid: u64,
    pid: Seq<char>,
    ts: u64,
    r: Result<(), GameError>,
) -> bool {
    let idx = find_table(m0.tables@, gid);
    &&& m1.players == m0.players
    &&& idx == -1 ==> r == Err::<(), GameError>(GameError::NotFoundError) && m1 == m0
    &&& idx >= 0 ==> ({
        let t0 = m0.tables@[idx];
        let hands = t0.players_with_hand@;
        let idx2 = find_hand(hands, pid);
        &&& idx2 == -1 ==> r == Err::<(), GameError>(GameError::NotFoundError) && m1.tables@
            == m0.tables@ && m1.games == m0.games
        &&& idx2 >= 0 ==> ({
            let h = hands[idx2];
            &&& h.points >= 21 ==> r == Err::<(), GameError>(GameError::StateError) && m1.games
                == m0.games && m1.tables@.len() == m0.tables@.len() && (forall|j: int|
                0 <= j < m0.tables@.len() && j != idx ==> m1.tables@[j] == m0.tables@[j])
                && table_view_eq(m1.tables@[idx], t0)
            &&& h.points < 21 && h.is_standing ==> r == Err::<(), GameError>(GameError::StateError)
                && m1.games == m0.games && m1.tables@.len() == m0.tables@.len() && (forall|j: int|
                0 <= j < m0.tables@.len() && j != idx ==> m1.tables@[j] == m0.tables@[j])
                && table_view_eq(m1.tables@[idx], t0)
            &&& h.points < 21 && !h.is_standing && t0.deck.cards@.len() == 0 ==> r == Err::<
                (),
                GameError,
            >(GameError::StateError) && m1.games == m0.games && m1.tables@.len()
                == m0.tables@.len() && (forall|j: int|
                0 <= j < m0.tables@.len() && j != idx ==> m1.tables@[j] == m0.tables@[j])
                && table_view_eq(m1.tables@[idx], t0)
            &&& h.points < 21 && !h.is_standing && t0.deck.cards@.len() > 0 ==> ({
                &&& r == Ok::<(), GameError>(())
                &&& !all_standing_after_hit(t0, idx2, ts) ==> m1.games == m0.games
                    && m1.tables@.len() == m0.tables@.len() && (forall|j: int|
                    0 <= j < m0.tables@.len() && j != idx ==> m1.tables@[j] == m0.tables@[j])
                    && is_hit_table(m1.tables@[idx], t0, idx2, ts)
                &&& all_standing_after_hit(t0, idx2, ts) ==> m1.tables@ == m0.tables@.remove(idx)
                    && m1.games@ == m0.games@.push(t0.game)
            })
        })
    })
}

/// What `Manager::stand_player` promises: the hand stands, and the move
/// that leaves every hand standing removes the round and returns its
/// lobby to the pool.
pub open spec fn stand_player_post(
    m0: Manager,
    m1: Manager,
    gid: u64,
    pid: Seq<char>,
    ts: u64,
    r: Result<(), GameError>,
) -> bool {
    let idx = find_table(m0.tables@, gid);
    &&& m1.players == m0.players
    &&& idx == -1 ==> r == Err::<(), GameError>(GameError::NotFoundError) && m1 == m0
    &&& idx >= 0 ==> ({
        let t0 = m0.tables@[idx];
        let hands = t0.players_with_hand@;
        let idx2 = find_hand(hands, pid);
        &&& idx2 == -1 ==> r == Err::<(), GameError>(GameError::NotFoundError) && m1.tables@
            == m0.tables@ && m1.games == m0.games
        &&& idx2 >= 0 ==> ({
            let still = exists|j: int|
                0 <= j < hands.len() && j != idx2 && !(#[trigger] hands[j]).is_standing;
            &&& r == Ok::<(), GameError>(())
            &&& still ==> m1.games == m0.games && m1.tables@.len() == m0.tables@.len() && (forall|
                j: int,
            |
                0 <= j < m0.tables@.len() && j != idx ==> m1.tables@[j] == m0.tables@[j]) && ({
                let t1 = m1.tables@[idx];
                &&& t1.game == t0.game
                &&& t1.deck == t0.deck
                &&& t1.players_with_hand@ == hands.update(idx2, stood(hands[idx2], ts))
            })
            &&& !still ==> m1.tables@ == m0.tables@.remove(idx) && m1.games@ == m0.games@.push(
                t0.game,
            )
        })
    })
}

impl Manager {
    /// Consumes the named lobby into a freshly dealt round of `nth_decks`
    /// standard decks: two passes over the player list, one card each,
    /// seeded from the timestamp. Fails without touching anything when
    /// the lobby is unknown or holds fewer than two players.
    pub fn start_game(&mut self, gid: u64, nth_decks: usize, timestamp: u64) -> (r: Result<
        (),
        GameError,
    >)
        requires
            old(self).wf(),
            1 <= nth_decks,
            nth_decks * 52 <= usize::MAX,
        ensures
            final(self).wf(),
            start_game_post(*old(self), *final(self), gid, nth_decks, timestamp, r),
    {
        let idx = match self.find_game_index(gid) {
            Some(i) => i,
            None => {
                return Err(GameError::NotFoundError);
            },
        };
        proof {
            lemma_find_game_from(self.games@, gid, 0);
        }
        if self.games[idx].players.len() < 2 {
            return Err(GameError::CapacityError);
        }
        let ghost gs0 = self.games@;
        let ghost ts0 = self.tables@;
        let g = match self.drop_game(gid) {
            Ok(g) => g,
            Err(_) => {
                return Err(GameError::NotFoundError);
            },
        };
        let table = match g.round_start(nth_decks, timestamp) {
            Ok(t) => t,
            Err(e) => {
                return Err(e);
            },
        };
        proof {
            let idx = find_game(gs0, gid) as int;
            assert(find_game(self.games@, table.game.id) == -1) by {
                lemma_find_game_from(self.games@, table.game.id, 0);
                let a = find_game(self.games@, table.game.id);
                if a >= 0 {
                    let a0: int = if a < idx {
                        a
                    } else {
                        a + 1
                    };
                    assert(self.games@[a] == gs0[a0]);
                    assert(game_ids(old(self))[a0] == gs0[a0].id);
                    assert(game_ids(old(self))[idx] == gs0[idx].id);
                }
            }
            assert(find_table(self.tables@, table.game.id) == -1) by {
                lemma_find_table_from(self.tables@, table.game.id, 0);
                let a = find_table(self.tables@, table.game.id);
                if a >= 0 {
                    assert(table_ids(old(self))[a] == ts0[a].game.id);
                    assert(game_ids(old(self))[idx] == gs0[idx].id);
                }
            }
        }
        self.add_table(table);
        Ok(())
    }

    /// One hit against the round with this id, then the automatic stop:
    /// when no hand can act any more, the round ends and its lobby
    /// returns to the pool.
    pub fn hit_player(&mut self, gid: u64, player_id: &str, timestamp: u64) -> (r: Result<
        (),
        GameError,
    >)
        requires
            old(self).wf(),
        ensures
            final(self).wf(),
            hit_player_post(*old(self), *final(self), gid, player_id@, timestamp, r),
    {
        let idx = match self.find_table_index(gid) {
            Some(i) => i,
            None => {
                return Err(GameError::NotFoundError);
            },
        };
        proof {
            lemma_find_table_from(self.tables@, gid, 0);
        }
        let ghost ts0 = self.tables@;
        let ghost gs0 = self.games@;
        let mut t = self.tables.remove(idx);
        let res = t.hit_player(player_id, timestamp);
        proof {
            crate::game::lemma_find_hand_from(ts0[idx as int].players_with_hand@, player_id@, 0);
        }
        match res {
            Err(e) => {
                self.tables.insert(idx, t);
                proof {
                    crate::game::lemma_remove_insert(ts0, idx as int, t);
                    let t0 = ts0[idx as int];
                    let idx2 = find_hand(t0.players_with_hand@, player_id@);
                    if idx2 == -1 {
                        assert(t == t0);
                        lemma_update_same(ts0, idx as int);
                    }
                    self.lemma_wf_after_table_update(*old(self), idx as int, t);
                }
                Err(e)
            },
            Ok(_) => {
                let ghost t0 = ts0[idx as int];
                let ghost hands = t0.players_with_hand@;
                let ghost idx2 = find_hand(hands, player_id@);
                proof {
                    let i = timestamp as int % t0.deck.cards@.len() as int;
                    let c = t0.deck.cards@[i];
                    if all_standing_after_hit(t0, idx2, timestamp) {
                        assert forall|j: int| 0 <= j < t.players_with_hand@.len() implies (
                        #[trigger] t.players_with_hand@[j]).is_standing by {
                            if j != idx2 {
                                assert(t.players_with_hand@[j] == hands[j]);
                            }
                        }
                    } else {
                        if hit_points(hands[idx2].points as int, c) < 21 {
                            assert(!t.players_with_hand@[idx2].is_standing);
                        } else {
                            let j = choose|j: int|
                                0 <= j < hands.len() && j != idx2 && !(
                                #[trigger] hands[j]).is_standing;
                            assert(!t.players_with_hand@[j].is_standing);
                        }
                    }
                }
                if t.any_player_can_hit() {
                    self.tables.insert(idx, t);
                    proof {
                        crate::game::lemma_remove_insert(ts0, idx as int, t);
                        self.lemma_wf_after_table_update(*old(self), idx as int, t);
                    }
                    Ok(())
                } else {
                    let g = t.drop_table();
                    proof {
                        self.lemma_wf_after_table_removal_return(*old(self), idx as int, g);
                    }
                    self.games.push(g);
                    proof {
                        self.lemma_wf_after_game_push(*old(self), idx as int, g);
                    }
                    Ok(())
                }
            },
        }
    }

    /// One stand against the round with this id, then the automatic stop.
    pub fn stand_player(&mut self, gid: u64, player_id: &str, timestamp: u64) -> (r: Result<
        (),
        GameError,
    >)
        requires
            old(self).wf(),
        ensures
            final(self).wf(),
            stand_player_post(*old(self), *final(self), gid, player_id@, timestamp, r),
    {
        let idx = match self.find_table_index(gid) {
            Some(i) => i,
            None => {
                return Err(GameError::NotFoundError);
            },
        };
        proof {
            lemma_find_table_from(self.tables@, gid, 0);
        }
        let ghost ts0 = self.tables@;
        let mut t = self.tables.remove(idx);
        let res = t.stand_player(player_id, timestamp);
        proof {
            crate::game::lemma_find_hand_from(ts0[idx as int].players_with_hand@, player_id@, 0);
        }
        match res {
            Err(e) => {
                self.tables.insert(idx, t);
                proof {
                    crate::game::lemma_remove_insert(ts0, idx as int, t);
                    assert(t == ts0[idx as int]);
                    lemma_update_same(ts0, idx as int);
                    self.lemma_wf_after_table_update(*old(self), idx as int, t);
                }
                Err(e)
            },
            Ok(_) => {
                let ghost t0 = ts0[idx as int];
                let ghost hands = t0.players_with_hand@;
                let ghost idx2 = find_hand(hands, player_id@);
                proof {
                    let still = exists|j: int|
                        0 <= j < hands.len() && j != idx2 && !(#[trigger] hands[j]).is_standing;
                    if still {
                        let j = choose|j: int|
                            0 <= j < hands.len() && j != idx2 && !(#[trigger] hands[j]).is_standing;
                        assert(!t.players_with_hand@[j].is_standing);
                    } else {
                        assert forall|j: int| 0 <= j < t.players_with_hand@.len() implies (
                        #[trigger] t.players_with_hand@[j]).is_standing by {
                            if j != idx2 {
                                assert(t.players_with_hand@[j] == hands[j]);
                            } else {
                                assert(t.players_with_hand@[j] == stood(hands[idx2], timestamp));
                            }
                        }
                    }
                }
                if t.any_player_can_hit() {
                    self.tables.insert(idx, t);
                    proof {
                        crate::game::lemma_remove_insert(ts0, idx as int, t);
                        self.lemma_wf_after_table_update(*old(self), idx as int, t);
                    }
                    Ok(())
                } else {
                    let g = t.drop_table();
                    proof {
                        self.lemma_wf_after_table_removal_return(*old(self), idx as int, g);
                    }
                    self.games.push(g);
                    proof {
                        self.lemma_wf_after_game_push(*old(self), idx as int, g);
                    }
                    Ok(())
                }
            },
        }
    }

    /// After replacing the table at `idx` by one with the same id and
    /// well-formed hands, the registry is still well-formed.
    proof fn lemma_wf_after_table_update(&self, m0: Manager, idx: int, t: Table)
        requires
            m0.wf(),
            0 <= idx < m0.tables@.len(),
            t.wf(),
            t.game.id == m0.tables@[idx].game.id,
            self.players == m0.players,
            self.games == m0.games,
            self.tables@ == m0.tables@.update(idx, t),
        ensures
            self.wf(),
    {
        assert(table_ids(self) =~= table_ids(&m0));
        assert forall|i: int| 0 <= i < self.tables@.len() implies (
        #[trigger] self.tables@[i]).wf() by {
            if i != idx {
                assert(self.tables@[i] == m0.tables@[i]);
            }
        }
        assert(game_ids(self) =~= game_ids(&m0));
    }

    /// With the table at `idx` removed, the registry (games untouched) is
    /// well-formed and its lobby id is free again.
    proof fn lemma_wf_after_table_removal_return(&self, m0: Manager, idx: int, g: crate::game::Game)
        requires
            m0.wf(),
            0 <= idx < m0.tables@.len(),
            g == m0.tables@[idx].game,
            self.players == m0.players,
            self.games == m0.games,
            self.tables@ == m0.tables@.remove(idx),
        ensures
            find_game(self.games@, g.id) == -1,
            find_table(self.tables@, g.id) == -1,
    {
        assert(table_ids(self) =~= table_ids(&m0).remove(idx));
        assert(table_ids(&m0)[idx] == g.id);
        assert(find_game(self.games@, g.id) == -1) by {
            lemma_find_game_from(self.games@, g.id, 0);
            let a = find_game(self.games@, g.id);
            if a >= 0 {
                assert(game_ids(&m0)[a] == m0.games@[a].id);
            }
        }
        assert(find_table(self.tables@, g.id) == -1) by {
            lemma_find_table_from(self.tables@, g.id, 0);
            let a = find_table(self.tables@, g.id);
            if a >= 0 {
                let a0: int = if a < idx {
                    a
                } else {
                    a + 1
                };
                assert(self.tables@[a] == m0.tables@[a0]);
                assert(table_ids(&m0)[a0] == m0.tables@[a0].game.id);
            }
        }
    }

    /// After removing the table at `idx` and pushing its lobby back, the
    /// registry is well-formed.
    proof fn lemma_wf_after_game_push(&self, m0: Manager, idx: int, g: crate::game::Game)
        requires
            m0.wf(),
            0 <= idx < m0.tables@.len(),
            g == m0.tables@[idx].game,
            self.players == m0.players,
            self.games@ == m0.games@.push(g),
            self.tables@ == m0.tables@.remove(idx),
        ensures
            self.wf(),
    {
        let n = m0.games@.len() as int;
        assert(table_ids(self) =~= table_ids(&m0).remove(idx));
        lemma_no_dup_remove(table_ids(&m0), idx);
        assert(game_ids(self) =~= game_ids(&m0).push(g.id));
        assert(table_ids(&m0)[idx] == g.id);
        assert(!game_ids(&m0).contains(g.id)) by {
            if game_ids(&m0).contains(g.id) {
                let a = choose|a: int|
                    0 <= a < game_ids(&m0).len() && game_ids(&m0)[a] == g.id;
                assert(game_ids(&m0)[a] != table_ids(&m0)[idx]);
            }
        }
        lemma_no_dup_push(game_ids(&m0), g.id);
        assert forall|i: int, j: int|
            0 <= i < game_ids(self).len() && 0 <= j < table_ids(self).len() implies game_ids(
            self,
        )[i] != table_ids(self)[j] by {
            let j0: int = if j < idx {
                j
            } else {
                j + 1
            };
            assert(table_ids(self)[j] == table_ids(&m0)[j0]);
            if i < n {
                assert(game_ids(self)[i] == game_ids(&m0)[i]);
                assert(game_ids(&m0)[i] != table_ids(&m0)[j0]);
            } else {
                assert(game_ids(self)[i] == g.id);
                lemma_no_dup_remove(table_ids(&m0), idx);
                assert(table_ids(&m0)[j0] != table_ids(&m0)[idx]);
            }
        }
        assert forall|i: int| 0 <= i < self.games@.len() implies (
        #[trigger] self.games@[i]).wf() by {
            if i < n {
                assert(self.games@[i] == m0.games@[i]);
            } else {
                assert(self.games@[i] == g);
                assert(m0.tables@[idx].wf());
            }
        }
        assert forall|i: int| 0 <= i < self.tables@.len() implies (
        #[trigger] self.tables@[i]).wf() by {
            let i0: int = if i < idx {
                i
            } else {
                i + 1
            };
            assert(self.tables@[i] == m0.tables@[i0]);
        }
    }
}

} // verus!
