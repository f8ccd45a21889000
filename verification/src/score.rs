//! Reports and the end-of-round scoreboard.
//!
//! The scoreboard ranks participants by points, descending. A hand over 21
//! points is marked busted: it is still listed, but excluded from the
//! winning rank. Every non-busted hand tied at the top is a joint winner;
//! no house dealer is modeled.

use vstd::prelude::*;

use crate::cards::Card;
use crate::errors::GameError;
use crate::game::{contains_id, find_hand, Game, Table};
use crate::manager::{find_player, find_table, Manager};
use crate::player::PlayerHand;

verus! {

/// One line of a `show_hands` report.
pub struct HandReport {
    pub name: String,
    pub points: u8,
    pub cards: Vec<Card>,
}

/// One line of a `show_games` report.
pub struct GameSummary {
    pub id: u64,
    pub players: usize,
}

/// One ranked line of the scoreboard.
pub struct ScoreRow {
    pub player_id: String,
    pub name: String,
    pub points: u8,
    pub busted: bool,
}

/// The ranking and the joint winners of a round.
pub struct Scoreboard {
    pub rows: Vec<ScoreRow>,
    pub winners: Vec<String>,
}

/// A row as a mathematical value: id, name, points, busted.
pub open spec fn row_view(r: ScoreRow) -> (Seq<char>, Seq<char>, u8, bool) {
    (r.player_id@, r.name@, r.points, r.busted)
}

pub open spec fn rows_view(s: Seq<ScoreRow>) -> Seq<(Seq<char>, Seq<char>, u8, bool)> {
    s.map_values(|r: ScoreRow| row_view(r))
}

/// Ranked by points, highest first.
pub open spec fn sorted_desc(s: Seq<ScoreRow>) -> bool {
    forall|i: int, j: int| 0 <= i < j < s.len() ==> s[i].points >= s[j].points
}

/// A joint winner: not busted, and no non-busted row scores higher.
pub open spec fn is_winner_among(rows: Seq<ScoreRow>, r: ScoreRow) -> bool {
    &&& !r.busted
    &&& forall|j: int| 0 <= j < rows.len() && !(#[trigger] rows[j]).busted ==> r.points >= rows[j].points
}

/// The display name the registry knows for `id`, or `id` itself.
pub open spec fn name_or_id(m: &Manager, id: Seq<char>) -> Seq<char> {
    let i = find_player(m.players@, id);
    if i >= 0 {
        m.players@[i].name@
    } else {
        id
    }
}

/// What a hand contributes to the scoreboard.
pub open spec fn hand_row(m: &Manager, h: PlayerHand) -> (Seq<char>, Seq<char>, u8, bool) {
    (h.player_id@, name_or_id(m, h.player_id@), h.points, h.points > 21)
}

/// Appending to a sequence filters to the old filtering, plus the new
/// element when the predicate keeps it.
pub proof fn lemma_filter_push<A>(s: Seq<A>, pred: spec_fn(A) -> bool, x: A)
    ensures
        s.push(x).filter(pred) == if pred(x) {
            s.filter(pred).push(x)
        } else {
            s.filter(pred)
        },
{
    reveal(Seq::filter);
    assert(s.push(x).drop_last() =~= s);
    assert(s.push(x).last() == x);
}

/// Sorts rows by points, descending, keeping exactly the same rows.
fn sort_rows(rows: Vec<ScoreRow>) -> (r: Vec<ScoreRow>)
    ensures
        r@.len() == rows@.len(),
        sorted_desc(r@),
        rows_view(r@).to_multiset() == rows_view(rows@).to_multiset(),
{
    broadcast use vstd::seq_lib::group_to_multiset_ensures;
    broadcast use vstd::multiset::group_multiset_axioms;

    let ghost all0 = rows_view(rows@).to_multiset();
    let mut rest = rows;
    let mut out: Vec<ScoreRow> = Vec::new();
    while rest.len() > 0
        invariant
            out@.len() + rest@.len() == rows@.len(),
            rows_view(out@).to_multiset().add(rows_view(rest@).to_multiset()) == all0,
            all0 == rows_view(rows@).to_multiset(),
            sorted_desc(out@),
            forall|a: int, b: int|
                0 <= a < out@.len() && 0 <= b < rest@.len() ==> out@[a].points
                    >= rest@[b].points,
        decreases rest@.len(),
    {
        let n = rest.len();
        let mut best: usize = 0;
        let mut k: usize = 1;
        while k < n
            invariant
                n == rest@.len(),
                best < n,
                1 <= k <= n,
                forall|j: int| 0 <= j < k ==> rest@[j].points <= rest@[best as int].points,
            decreases n - k,
        {
            if rest[k].points > rest[best].points {
                best = k;
            }
            k += 1;
        }
        let ghost out0 = out@;
        let ghost rest0 = rest@;
        let x = rest.remove(best);
        out.push(x);
        proof {
            let v = row_view(x);
            rows_view(rest0).to_multiset_ensures();
            rows_view(out0).to_multiset_ensures();
            assert(rows_view(rest0)[best as int] == v);
            assert(rows_view(out@) =~= rows_view(out0).push(v));
            assert(rows_view(rest@) =~= rows_view(rest0).remove(best as int));
            assert(rows_view(rest0).contains(v)) by {
                assert(rows_view(rest0)[best as int] == v);
            }
            assert(rows_view(rest0).to_multiset().count(v) > 0);
            assert(rows_view(out0).push(v).to_multiset() =~= rows_view(out0).to_multiset().insert(
                v,
            ));
            assert(rows_view(rest0).remove(best as int).to_multiset() =~= rows_view(
                rest0,
            ).to_multiset().remove(v));
            assert(rows_view(out@).to_multiset().add(rows_view(rest@).to_multiset()) =~= rows_view(
                out0,
            ).to_multiset().add(rows_view(rest0).to_multiset()));
            assert(sorted_desc(out@)) by {
                assert forall|i: int, j: int| 0 <= i < j < out@.len() implies out@[i].points
                    >= out@[j].points by {
                    if j < out0.len() {
                    } else {
                        assert(out@[j] == x);
                        assert(out0[i].points >= rest0[best as int].points);
                    }
                }
            }
            assert forall|a: int, b: int|
                0 <= a < out@.len() && 0 <= b < rest@.len() implies out@[a].points
                >= rest@[b].points by {
                let b0: int = if b < best {
                    b
                } else {
                    b + 1
                };
                assert(rest@[b] == rest0[b0]);
                if a < out0.len() {
                    assert(out@[a] == out0[a]);
                } else {
                    assert(out@[a] == x);
                    assert(rest0[b0].points <= rest0[best as int].points);
                }
            }
        }
    }
    out
}

/// Collects the joint winners of a ranked listing, in listing order.
fn compute_winners(rows: &Vec<ScoreRow>) -> (r: Vec<String>)
    ensures
        r@.map_values(|s: String| s@) == rows@.filter(
            |x: ScoreRow| is_winner_among(rows@, x),
        ).map_values(|x: ScoreRow| x.player_id@),
{
    let ghost pred = |x: ScoreRow| is_winner_among(rows@, x);
    let n = rows.len();
    let mut maxv: u8 = 0;
    let mut any: bool = false;
    let mut k: usize = 0;
    while k < n
        invariant
            n == rows@.len(),
            k <= n,
            any == exists|j: int| 0 <= j < k && !(#[trigger] rows@[j]).busted,
            any ==> exists|j: int|
                0 <= j < k && !(#[trigger] rows@[j]).busted && rows@[j].points == maxv,
            forall|j: int|
                0 <= j < k && !(#[trigger] rows@[j]).busted ==> rows@[j].points <= maxv,
        decreases n - k,
    {
        if !rows[k].busted && (!any || rows[k].points > maxv) {
            maxv = rows[k].points;
            any = true;
        }
        k += 1;
    }
    if !any {
        proof {
            assert(rows@.all(|x: ScoreRow| !pred(x))) by {
                assert forall|j: int| 0 <= j < rows@.len() implies !pred(rows@[j]) by {
                    assert(rows@[j].busted);
                }
            }
            rows@.lemma_all_neg_filter_empty(pred);
            assert(rows@.filter(pred) =~= Seq::<ScoreRow>::empty());
            assert(Seq::<String>::empty().map_values(|s: String| s@) =~= rows@.filter(
                pred,
            ).map_values(|x: ScoreRow| x.player_id@));
        }
        return Vec::new();
    }
    let mut out: Vec<String> = Vec::new();
    let mut k2: usize = 0;
    while k2 < n
        invariant
            n == rows@.len(),
            k2 <= n,
            pred == (|x: ScoreRow| is_winner_among(rows@, x)),
            exists|j: int| 0 <= j < n && !(#[trigger] rows@[j]).busted && rows@[j].points == maxv,
            forall|j: int| 0 <= j < n && !(#[trigger] rows@[j]).busted ==> rows@[j].points <= maxv,
            out@.map_values(|s: String| s@) == rows@.take(k2 as int).filter(pred).map_values(
                |x: ScoreRow| x.player_id@,
            ),
        decreases n - k2,
    {
        let ghost outv0 = out@.map_values(|s: String| s@);
        let keep = !rows[k2].busted && rows[k2].points == maxv;
        if keep {
            out.push(rows[k2].player_id.clone());
        }
        proof {
            let row = rows@[k2 as int];
            assert(pred(row) == keep) by {
                if !row.busted {
                    if row.points == maxv {
                        assert(is_winner_among(rows@, row));
                    } else {
                        let j0 = choose|j: int|
                            0 <= j < n && !(#[trigger] rows@[j]).busted && rows@[j].points == maxv;
                        assert(!(row.points >= rows@[j0].points));
                    }
                }
            }
            assert(rows@.take(k2 + 1) =~= rows@.take(k2 as int).push(row));
            lemma_filter_push(rows@.take(k2 as int), pred, row);
            if keep {
                assert(out@.map_values(|s: String| s@) =~= outv0.push(row.player_id@));
                assert(rows@.take(k2 as int).filter(pred).push(row).map_values(
                    |x: ScoreRow| x.player_id@,
                ) =~= rows@.take(k2 as int).filter(pred).map_values(
                    |x: ScoreRow| x.player_id@,
                ).push(row.player_id@));
            }
        }
        k2 += 1;
    }
    proof {
        assert(rows@.take(n as int) =~= rows@);
    }
    out
}

fn copy_cards(v: &Vec<Card>) -> (r: Vec<Card>)
    ensures
        r@ == v@,
{
    let mut out: Vec<Card> = Vec::new();
    let mut k: usize = 0;
    while k < v.len()
        invariant
            k <= v@.len(),
            out@ == v@.take(k as int),
        decreases v@.len() - k,
    {
        out.push(v[k]);
        proof {
            assert(v@.take(k + 1) =~= v@.take(k as int).push(v@[k as int]));
        }
        k += 1;
    }
    proof {
        assert(v@.take(v@.len() as int) =~= v@);
    }
    out
}

impl PlayerHand {
    /// This hand as one report line, under the resolved display name.
    pub fn generate_hand(&self, name: String) -> (r: HandReport)
        ensures
            r.name == name,
            r.points == self.points,
            r.cards@ == self.hand.0@,
    {
        HandReport { name, points: self.points, cards: copy_cards(&self.hand.0) }
    }
}

impl Manager {
    /// One summary line per lobby: its id and how many players sit in it.
    pub fn games_summary(&self) -> (r: Vec<GameSummary>)
        ensures
            r@.len() == self.games@.len(),
            forall|k: int|
                0 <= k < r@.len() ==> (#[trigger] r@[k]).id == self.games@[k].id && r@[k].players
                    == self.games@[k].players@.len(),
    {
        let n = self.games.len();
        let mut out: Vec<GameSummary> = Vec::new();
        let mut k: usize = 0;
        while k < n
            invariant
                n == self.games@.len(),
                k <= n,
                out@.len() == k,
                forall|j: int|
                    0 <= j < k ==> (#[trigger] out@[j]).id == self.games@[j].id && out@[j].players
                        == self.games@[j].players@.len(),
            decreases n - k,
        {
            out.push(GameSummary { id: self.games[k].id, players: self.games[k].players.len() });
            k += 1;
        }
        out
    }

    /// One report line per hand of the round: the player's display name
    /// (their id where no name is registered), their points, their cards.
    pub fn hands_report(&self, game_id: u64) -> (r: Result<Vec<HandReport>, GameError>)
        ensures
            ({
                let idx = find_table(self.tables@, game_id);
                &&& idx == -1 ==> r == Err::<Vec<HandReport>, GameError>(GameError::NotFoundError)
                &&& idx >= 0 ==> r is Ok && ({
                    let hands = self.tables@[idx].players_with_hand@;
                    let v = r->Ok_0;
                    &&& v@.len() == hands.len()
                    &&& forall|k: int|
                        0 <= k < hands.len() ==> ((#[trigger] v@[k]).name@ == name_or_id(
                            self,
                            hands[k].player_id@,
                        ) && v@[k].points == hands[k].points && v@[k].cards@ == hands[k].hand.0@)
                })
            }),
    {
        let idx = match self.find_table_index(game_id) {
            Some(i) => i,
            None => {
                return Err(GameError::NotFoundError);
            },
        };
        proof {
            crate::manager::lemma_find_table_from(self.tables@, game_id, 0);
        }
        let table = &self.tables[idx];
        let n = table.players_with_hand.len();
        let mut out: Vec<HandReport> = Vec::new();
        let mut k: usize = 0;
        while k < n
            invariant
                idx < self.tables@.len(),
                n == self.tables@[idx as int].players_with_hand@.len(),
                k <= n,
                table == &self.tables@[idx as int],
                out@.len() == k,
                forall|j: int|
                    0 <= j < k ==> ((#[trigger] out@[j]).name@ == name_or_id(
                        self,
                        self.tables@[idx as int].players_with_hand@[j].player_id@,
                    ) && out@[j].points == self.tables@[idx as int].players_with_hand@[j].points
                        && out@[j].cards@ == self.tables@[idx as int].players_with_hand@[j].hand.0@),
            decreases n - k,
        {
            let h = &table.players_with_hand[k];
            let pid = h.get_player_id();
            let name = match self.get_player_name(pid.as_str()) {
                Some(nm) => nm,
                None => pid,
            };
            let cards = copy_cards(&h.hand.0);
            out.push(HandReport { name, points: h.points, cards });
            k += 1;
        }
        Ok(out)
    }

    /// The ids of the lobbies this player has joined, in registry order.
    pub fn joined_game_ids(&self, id: &str) -> (r: Vec<u64>)
        ensures
            r@ == self.games@.filter(|g: Game| contains_id(g.players@, id@)).map_values(
                |g: Game| g.id,
            ),
    {
        let ghost pred = |g: Game| contains_id(g.players@, id@);
        let n = self.games.len();
        let mut out: Vec<u64> = Vec::new();
        let mut k: usize = 0;
        while k < n
            invariant
                n == self.games@.len(),
                k <= n,
                pred == (|g: Game| contains_id(g.players@, id@)),
                out@ == self.games@.take(k as int).filter(pred).map_values(|g: Game| g.id),
            decreases n - k,
        {
            let keep = self.games[k].has_player(id);
            let ghost g = self.games@[k as int];
            if keep {
                out.push(self.games[k].id);
            }
            proof {
                assert(self.games@.take(k + 1) =~= self.games@.take(k as int).push(g));
                lemma_filter_push(self.games@.take(k as int), pred, g);
                if keep {
                    assert(self.games@.take(k as int).filter(pred).push(g).map_values(
                        |x: Game| x.id,
                    ) =~= self.games@.take(k as int).filter(pred).map_values(|x: Game| x.id).push(
                        g.id,
                    ));
                }
            }
            k += 1;
        }
        proof {
            assert(self.games@.take(n as int) =~= self.games@);
        }
        out
    }

    /// The ids of the rounds this player is playing, in registry order.
    pub fn playing_table_ids(&self, id: &str) -> (r: Vec<u64>)
        ensures
            r@ == self.tables@.filter(
                |t: Table| find_hand(t.players_with_hand@, id@) >= 0,
            ).map_values(|t: Table| t.game.id),
    {
        let ghost pred = |t: Table| find_hand(t.players_with_hand@, id@) >= 0;
        let n = self.tables.len();
        let mut out: Vec<u64> = Vec::new();
        let mut k: usize = 0;
        while k < n
            invariant
                n == self.tables@.len(),
                k <= n,
                pred == (|t: Table| find_hand(t.players_with_hand@, id@) >= 0),
                out@ == self.tables@.take(k as int).filter(pred).map_values(|t: Table| t.game.id),
            decreases n - k,
        {
            let keep = self.tables[k].has_player(id);
            let ghost t = self.tables@[k as int];
            if keep {
                out.push(self.tables[k].game.id);
            }
            proof {
                assert(self.tables@.take(k + 1) =~= self.tables@.take(k as int).push(t));
                lemma_filter_push(self.tables@.take(k as int), pred, t);
                if keep {
                    assert(self.tables@.take(k as int).filter(pred).push(t).map_values(
                        |x: Table| x.game.id,
                    ) =~= self.tables@.take(k as int).filter(pred).map_values(
                        |x: Table| x.game.id,
                    ).push(t.game.id));
                }
            }
            k += 1;
        }
        proof {
            assert(self.tables@.take(n as int) =~= self.tables@);
        }
        out
    }

    /// Ranks the hands of the round with this id: every hand listed in
    /// points order, busted hands flagged, and the non-busted hands tied
    /// at the top reported as joint winners.
    pub fn get_scoreboard(&self, game_id: u64) -> (r: Result<Scoreboard, GameError>)
        ensures
            ({
                let idx = find_table(self.tables@, game_id);
                &&& idx == -1 ==> r == Err::<Scoreboard, GameError>(GameError::NotFoundError)
                &&& idx >= 0 ==> r is Ok && ({
                    let hands = self.tables@[idx].players_with_hand@;
                    let sb = r->Ok_0;
                    &&& sb.rows@.len() == hands.len()
                    &&& sorted_desc(sb.rows@)
                    &&& rows_view(sb.rows@).to_multiset() == hands.map_values(
                        |h: PlayerHand| hand_row(self, h),
                    ).to_multiset()
                    &&& sb.winners@.map_values(|s: String| s@) == sb.rows@.filter(
                        |x: ScoreRow| is_winner_among(sb.rows@, x),
                    ).map_values(|x: ScoreRow| x.player_id@)
                })
            }),
    {
        broadcast use vstd::seq_lib::group_to_multiset_ensures;

        let idx = match self.find_table_index(game_id) {
            Some(i) => i,
            None => {
                return Err(GameError::NotFoundError);
            },
        };
        proof {
            crate::manager::lemma_find_table_from(self.tables@, game_id, 0);
        }
        let table = &self.tables[idx];
        let n = table.players_with_hand.len();
        let mut raw: Vec<ScoreRow> = Vec::new();
        let mut k: usize = 0;
        while k < n
            invariant
                idx < self.tables@.len(),
                n == self.tables@[idx as int].players_with_hand@.len(),
                k <= n,
                table == &self.tables@[idx as int],
                raw@.len() == k,
                forall|j: int|
                    0 <= j < k ==> row_view(#[trigger] raw@[j]) == hand_row(
                        self,
                        self.tables@[idx as int].players_with_hand@[j],
                    ),
            decreases n - k,
        {
            let h = &table.players_with_hand[k];
            let pid = h.get_player_id();
            let name = match self.get_player_name(pid.as_str()) {
                Some(nm) => nm,
                None => pid.clone(),
            };
            let busted = h.points > 21;
            raw.push(ScoreRow { player_id: pid, name, points: h.points, busted });
            k += 1;
        }
        proof {
            assert(rows_view(raw@) =~= self.tables@[idx as int].players_with_hand@.map_values(
                |h: PlayerHand| hand_row(self, h),
            ));
        }
        let rows = sort_rows(raw);
        let winners = compute_winners(&rows);
        Ok(Scoreboard { rows, winners })
    }
}

} // verus!
