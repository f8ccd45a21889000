//! Lobbies and active rounds.
//!
//! A `Game` is a pre-round grouping of players; a `Table` is an active
//! round with an exclusively owned deck and one hand per participant.
//! Players are referenced by their stable string ids; the registry that
//! resolves them lives in `manager`.

use vstd::prelude::*;

use crate::cards::{fresh_cards, Card, Deck};
use crate::codec::str_eq;
use crate::errors::GameError;
use crate::player::{hit_points, score_of, stood, PlayerHand};

verus! {

/// The most players a lobby accepts.
pub open spec fn max_lobby_size() -> int {
    7
}

/// The ids of a player list, as character sequences.
pub open spec fn ids_of(ps: Seq<String>) -> Seq<Seq<char>> {
    ps.map_values(|p: String| p@)
}

/// Whether some id in `ids` reads `id`.
pub open spec fn contains_id(ids: Seq<String>, id: Seq<char>) -> bool {
    exists|i: int| 0 <= i < ids.len() && ids[i]@ == id
}

/// The deck left over after `k` seeded draws, every draw taking the card
/// at `seed % length` for the length at that moment.
pub open spec fn deck_after_draws(d0: Seq<Card>, seed: u64, k: nat) -> Seq<Card>
    decreases k,
{
    if k == 0 {
        d0
    } else {
        let d = deck_after_draws(d0, seed, (k - 1) as nat);
        if d.len() == 0 {
            d
        } else {
            d.remove(seed as int % d.len() as int)
        }
    }
}

/// The card the `k`-th seeded draw yields (counting from 0).
pub open spec fn drawn_card(d0: Seq<Card>, seed: u64, k: nat) -> Card {
    let d = deck_after_draws(d0, seed, k);
    d[seed as int % d.len() as int]
}

pub proof fn lemma_deck_after_draws_len(d0: Seq<Card>, seed: u64, k: nat)
    requires
        k <= d0.len(),
    ensures
        deck_after_draws(d0, seed, k).len() == d0.len() - k,
    decreases k,
{
    if k > 0 {
        lemma_deck_after_draws_len(d0, seed, (k - 1) as nat);
    }
}

/// Putting an element back where one was taken out only replaces that slot.
pub proof fn lemma_remove_insert<A>(s: Seq<A>, i: int, x: A)
    requires
        0 <= i < s.len(),
    ensures
        s.remove(i).insert(i, x) == s.update(i, x),
{
    let lhs = s.remove(i).insert(i, x);
    let rhs = s.update(i, x);
    assert forall|k: int| 0 <= k < rhs.len() implies lhs[k] == rhs[k] by {
        if k < i {
        } else if k == i {
        } else {
            assert(lhs[k] == s.remove(i)[k - 1]);
        }
    }
    assert(lhs =~= rhs);
}

/// Replacing a slot by its own value changes nothing.
pub proof fn lemma_update_same<A>(s: Seq<A>, i: int)
    requires
        0 <= i < s.len(),
    ensures
        s.update(i, s[i]) == s,
{
    assert(s.update(i, s[i]) =~= s);
}

/// A pre-round grouping of players awaiting a round.
pub struct Game {
    pub id: u64,
    pub players: Vec<String>,
}

impl Game {
    /// A lobby never exceeds its capacity.
    pub open spec fn wf(&self) -> bool {
        self.players@.len() <= max_lobby_size()
    }

    pub fn new(id: u64) -> (g: Game)
        ensures
            g.id == id,
            g.players@.len() == 0,
            g.wf(),
    {
        Game { id, players: Vec::new() }
    }

    pub fn get_id(&self) -> (id: u64)
        ensures
            id == self.id,
    {
        self.id
    }

    /// Whether the player with this id sits in the lobby.
    pub fn has_player(&self, id: &str) -> (r: bool)
        ensures
            r == contains_id(self.players@, id@),
    {
        let n = self.players.len();
        let mut k: usize = 0;
        while k < n
            invariant
                n == self.players@.len(),
                k <= n,
                forall|j: int| 0 <= j < k ==> self.players@[j]@ != id@,
            decreases n - k,
        {
            if str_eq(self.players[k].as_str(), id) {
                return true;
            }
            k += 1;
        }
        false
    }

    /// Appends a player, capacity-checked: the join fails exactly when the
    /// lobby already holds the maximum, and otherwise grows it by one.
    pub fn player_join(&mut self, player_id: String) -> (r: Result<(), GameError>)
        ensures
            final(self).id == old(self).id,
            old(self).players@.len() >= max_lobby_size() ==> r == Err::<(), GameError>(
                GameError::CapacityError,
            ) && *final(self) == *old(self),
            old(self).players@.len() < max_lobby_size() ==> r == Ok::<(), GameError>(())
                && final(self).players@ == old(self).players@.push(player_id),
            old(self).wf() ==> final(self).wf(),
    {
        if self.players.len() >= 7 {
            return Err(GameError::CapacityError);
        }
        self.players.push(player_id);
        Ok(())
    }

    /// Consumes the lobby into a round: a fresh deck of `nth_decks`
    /// standard decks, one hand per participant, and an initial deal of
    /// two full passes over the player list — everyone receives a first
    /// card before anyone receives a second — each draw seeded from the
    /// supplied timestamp. Fails exactly when fewer than two players sit
    /// in the lobby.
    pub fn round_start(self, nth_decks: usize, timestamp: u64) -> (r: Result<Table, GameError>)
        requires
            self.wf(),
            1 <= nth_decks,
            nth_decks * 52 <= usize::MAX,
        ensures
            self.players@.len() < 2 ==> r == Err::<Table, GameError>(GameError::CapacityError),
            self.players@.len() >= 2 ==> r is Ok && ({
                let t = r->Ok_0;
                let k = self.players@.len() as int;
                let d0 = fresh_cards(nth_decks as nat);
                &&& t.game == self
                &&& t.deck.cards@ == deck_after_draws(d0, timestamp, (2 * k) as nat)
                &&& t.deck.cards@.len() == nth_decks * 52 - 2 * k
                &&& t.players_with_hand@.len() == k
                &&& forall|j: int|
                    0 <= j < k ==> is_second_dealt(
                        #[trigger] t.players_with_hand@[j],
                        self.players@[j]@,
                        d0,
                        timestamp,
                        k,
                        j,
                    )
                &&& t.wf()
            }),
    {
        let k = self.players.len();
        if k < 2 {
            return Err(GameError::CapacityError);
        }
        let mut deck = Deck::new(nth_decks);
        let ghost d0 = deck.cards@;
        proof {
            assert(d0.len() == nth_decks * 52);
            assert(nth_decks * 52 >= 52) by (nonlinear_arith)
                requires
                    nth_decks >= 1,
            ;
        }
        let mut first: Vec<PlayerHand> = Vec::new();
        let mut j: usize = 0;
        while j < k
            invariant
                k == self.players@.len(),
                2 <= k <= 7,
                1 <= nth_decks,
                nth_decks * 52 <= usize::MAX,
                d0 == fresh_cards(nth_decks as nat),
                d0.len() == nth_decks * 52,
                d0.len() >= 52,
                j <= k,
                deck.cards@ == deck_after_draws(d0, timestamp, j as nat),
                deck.cards@.len() == d0.len() - j,
                first@.len() == j,
                forall|jj: int|
                    0 <= jj < j ==> is_first_dealt(
                        #[trigger] first@[jj],
                        self.players@[jj]@,
                        d0,
                        timestamp,
                        jj,
                    ),
            decreases k - j,
        {
            let pid = self.players[j].clone();
            let mut h = PlayerHand::new(pid, timestamp);
            let ghost prev = deck.cards@;
            let res = h.hit(&mut deck, timestamp);
            proof {
                let i = timestamp as int % prev.len() as int;
                let c = prev[i];
                assert(c == drawn_card(d0, timestamp, j as nat));
                assert(deck_after_draws(d0, timestamp, (j + 1) as nat) == prev.remove(i));
                lemma_hit_points_low(0, c);
                assert(Seq::<Card>::empty().push(c) =~= seq![c]);
            }
            match res {
                Ok(_) => {},
                Err(_) => {
                    return Err(GameError::StateError);
                },
            }
            first.push(h);
            j += 1;
        }
        let ghost firsts = first@;
        let mut hands: Vec<PlayerHand> = Vec::new();
        let mut j2: usize = 0;
        while j2 < k
            invariant
                k == self.players@.len(),
                2 <= k <= 7,
                1 <= nth_decks,
                nth_decks * 52 <= usize::MAX,
                d0 == fresh_cards(nth_decks as nat),
                d0.len() == nth_decks * 52,
                d0.len() >= 52,
                j2 <= k,
                firsts.len() == k,
                forall|jj: int|
                    0 <= jj < k ==> is_first_dealt(
                        #[trigger] firsts[jj],
                        self.players@[jj]@,
                        d0,
                        timestamp,
                        jj,
                    ),
                first@ == firsts.skip(j2 as int),
                hands@.len() == j2,
                deck.cards@ == deck_after_draws(d0, timestamp, (k + j2) as nat),
                deck.cards@.len() == d0.len() - k - j2,
                forall|jj: int|
                    0 <= jj < j2 ==> is_second_dealt(
                        #[trigger] hands@[jj],
                        self.players@[jj]@,
                        d0,
                        timestamp,
                        k as int,
                        jj,
                    ),
            decreases k - j2,
        {
            let mut h = first.remove(0);
            proof {
                assert(h == firsts[j2 as int]);
                assert(first@ =~= firsts.skip(j2 + 1));
                let c1 = drawn_card(d0, timestamp, j2 as nat);
                lemma_hit_points_low(0, c1);
            }
            let ghost prev = deck.cards@;
            let res = h.hit(&mut deck, timestamp);
            proof {
                let i = timestamp as int % prev.len() as int;
                let c2 = prev[i];
                let c1 = drawn_card(d0, timestamp, j2 as nat);
                assert(c2 == drawn_card(d0, timestamp, (k + j2) as nat));
                assert(deck_after_draws(d0, timestamp, (k + j2 + 1) as nat) == prev.remove(i));
                assert(seq![c1].push(c2) =~= seq![c1, c2]);
                assert(seq![c1, c2].drop_last() =~= seq![c1]);
                assert(seq![c1].drop_last() =~= Seq::<Card>::empty());
                assert(score_of(seq![c1]) == hit_points(0, c1));
                assert(score_of(seq![c1, c2]) == hit_points(hit_points(0, c1), c2));
            }
            match res {
                Ok(_) => {},
                Err(_) => {
                    return Err(GameError::StateError);
                },
            }
            hands.push(h);
            j2 += 1;
        }
        proof {
            assert((k + k) as nat == (2 * k as int) as nat);
        }
        Ok(Table { deck, players_with_hand: hands, game: self })
    }
}

/// The first card a rank can contribute is worth 2 to 11 points.
pub proof fn lemma_hit_points_low(p: int, c: Card)
    requires
        0 <= p <= 10,
    ensures
        p + 2 <= hit_points(p, c) <= p + 11,
        hit_points(p, c) <= 21,
{
}

/// The state a hand dealt one card has reached.
pub open spec fn is_first_dealt(
    h: PlayerHand,
    pid: Seq<char>,
    d0: Seq<Card>,
    ts: u64,
    j: int,
) -> bool {
    let c = drawn_card(d0, ts, j as nat);
    &&& h.player_id@ == pid
    &&& h.hand.0@ == seq![c]
    &&& h.points as int == hit_points(0, c)
    &&& !h.is_standing
    &&& h.round == 2
    &&& h.last_timestamp == ts
    &&& h.wf()
}

/// The state a hand dealt its two opening cards has reached: the cards of
/// draws `j` and `k + j`, scored in order, standing exactly at 21 points.
pub open spec fn is_second_dealt(
    h: PlayerHand,
    pid: Seq<char>,
    d0: Seq<Card>,
    ts: u64,
    k: int,
    j: int,
) -> bool {
    let c1 = drawn_card(d0, ts, j as nat);
    let c2 = drawn_card(d0, ts, (k + j) as nat);
    &&& h.player_id@ == pid
    &&& h.hand.0@ == seq![c1, c2]
    &&& h.points as int == score_of(seq![c1, c2])
    &&& h.is_standing == (score_of(seq![c1, c2]) >= 21)
    &&& h.round == 3
    &&& h.last_timestamp == ts
    &&& h.wf()
}

/// Index of the first hand owned by `id`, or -1.
pub open spec fn find_hand_from(hands: Seq<PlayerHand>, id: Seq<char>, k: int) -> int
    decreases hands.len() - k when 0 <= k <= hands.len()
{
    if k >= hands.len() {
        -1
    } else if hands[k].player_id@ == id {
        k
    } else {
        find_hand_from(hands, id, k + 1)
    }
}

pub open spec fn find_hand(hands: Seq<PlayerHand>, id: Seq<char>) -> int {
    find_hand_from(hands, id, 0)
}

pub proof fn lemma_find_hand_from(hands: Seq<PlayerHand>, id: Seq<char>, k: int)
    requires
        0 <= k <= hands.len(),
    ensures
        ({
            let r = find_hand_from(hands, id, k);
            &&& r == -1 || r >= 0
            &&& r == -1 ==> forall|j: int| k <= j < hands.len() ==> hands[j].player_id@ != id
            &&& r >= 0 ==> k <= r < hands.len() && hands[r].player_id@ == id
        }),
    decreases hands.len() - k,
{
    if k < hands.len() && hands[k].player_id@ != id {
        lemma_find_hand_from(hands, id, k + 1);
    }
}

/// The state a hand reaches by drawing card `c`.
pub open spec fn is_hit_result(h2: PlayerHand, h: PlayerHand, c: Card) -> bool {
    &&& h2.player_id == h.player_id
    &&& h2.hand.0@ == h.hand.0@.push(c)
    &&& h2.points as int == hit_points(h.points as int, c)
    &&& h2.is_standing == (hit_points(h.points as int, c) >= 21)
    &&& h2.round == h.round + 1
    &&& h2.last_timestamp == h.last_timestamp
}

/// An active round: an exclusively owned deck, one hand per participant,
/// and the lobby it came from.
pub struct Table {
    pub deck: Deck,
    pub players_with_hand: Vec<PlayerHand>,
    pub game: Game,
}

impl Table {
    pub open spec fn wf(&self) -> bool {
        &&& forall|i: int|
            0 <= i < self.players_with_hand@.len() ==> (
            #[trigger] self.players_with_hand@[i]).wf()
        &&& self.game.wf()
    }

    /// The round is keyed by the lobby it came from.
    pub fn get_id(&self) -> (id: u64)
        ensures
            id == self.game.id,
    {
        self.game.id
    }

    /// Ends the round: discards deck and hands, returns the lobby.
    pub fn drop_table(self) -> (g: Game)
        ensures
            g == self.game,
    {
        self.game
    }

    /// True exactly when at least one hand is not standing. The adapter
    /// must stop a round the moment this turns false.
    pub fn any_player_can_hit(&self) -> (r: bool)
        ensures
            r == exists|i: int|
                0 <= i < self.players_with_hand@.len() && !(
                #[trigger] self.players_with_hand@[i]).is_standing,
    {
        let n = self.players_with_hand.len();
        let mut k: usize = 0;
        while k < n
            invariant
                n == self.players_with_hand@.len(),
                k <= n,
                forall|j: int| 0 <= j < k ==> (#[trigger] self.players_with_hand@[j]).is_standing,
            decreases n - k,
        {
            if !self.players_with_hand[k].is_standing {
                return true;
            }
            k += 1;
        }
        false
    }

    /// Whether the player with this id holds a hand in the round.
    pub fn has_player(&self, id: &str) -> (r: bool)
        ensures
            r == (find_hand(self.players_with_hand@, id@) >= 0),
    {
        match self.find_hand_index(id) {
            Some(_) => true,
            None => false,
        }
    }

    fn find_hand_index(&self, id: &str) -> (r: Option<usize>)
        ensures
            r is Some <==> find_hand(self.players_with_hand@, id@) >= 0,
            r is Some ==> r->0 as int == find_hand(self.players_with_hand@, id@),
    {
        let n = self.players_with_hand.len();
        let mut k: usize = 0;
        while k < n
            invariant
                n == self.players_with_hand@.len(),
                k <= n,
                find_hand(self.players_with_hand@, id@) == find_hand_from(
                    self.players_with_hand@,
                    id@,
                    k as int,
                ),
            decreases n - k,
        {
            if str_eq(self.players_with_hand[k].get_player_id().as_str(), id) {
                return Some(k);
            }
            k += 1;
        }
        None
    }

    /// One player draws from the shared deck, per the hand state machine.
    ///
    /// Unknown ids are rejected; a busted or standing hand is refused and
    /// nothing moves, as does a draw against an exhausted deck; otherwise
    /// the seeded card moves from the deck into that hand.
    pub fn hit_player(&mut self, player_id: &str, timestamp: u64) -> (r: Result<(), GameError>)
        requires
            old(self).wf(),
        ensures
            final(self).wf(),
            final(self).game == old(self).game,
            ({
                let hands = old(self).players_with_hand@;
                let idx = find_hand(hands, player_id@);
                &&& idx == -1 ==> r == Err::<(), GameError>(GameError::NotFoundError)
                    && *final(self) == *old(self)
                &&& idx >= 0 ==> ({
                    let h = hands[idx];
                    &&& h.points >= 21 ==> r == Err::<(), GameError>(GameError::StateError)
                        && final(self).deck == old(self).deck
                        && final(self).players_with_hand@ == hands
                    &&& h.points < 21 && h.is_standing
                        ==> r == Err::<(), GameError>(GameError::StateError)
                        && final(self).deck == old(self).deck
                        && final(self).players_with_hand@ == hands
                    &&& h.points < 21 && !h.is_standing && old(self).deck.cards@.len() == 0
                        ==> r == Err::<(), GameError>(GameError::StateError)
                        && final(self).deck == old(self).deck
                        && final(self).players_with_hand@ == hands
                    &&& h.points < 21 && !h.is_standing && old(self).deck.cards@.len() > 0 ==> ({
                        let i = timestamp as int % old(self).deck.cards@.len() as int;
                        let c = old(self).deck.cards@[i];
                        &&& r == Ok::<(), GameError>(())
                        &&& final(self).deck.cards@ == old(self).deck.cards@.remove(i)
                        &&& final(self).players_with_hand@.len() == hands.len()
                        &&& is_hit_result(final(self).players_with_hand@[idx], h, c)
                        &&& forall|j: int|
                            0 <= j < hands.len() && j != idx
                                ==> final(self).players_with_hand@[j] == hands[j]
                    })
                })
            }),
    {
        let idx = match self.find_hand_index(player_id) {
            Some(i) => i,
            None => {
                return Err(GameError::NotFoundError);
            },
        };
        proof {
            lemma_find_hand_from(old(self).players_with_hand@, player_id@, 0);
        }
        let ghost hands0 = self.players_with_hand@;
        let mut h = self.players_with_hand.remove(idx);
        let res = h.hit(&mut self.deck, timestamp);
        self.players_with_hand.insert(idx, h);
        proof {
            lemma_remove_insert(hands0, idx as int, h);
            if res is Err {
                lemma_update_same(hands0, idx as int);
            }
        }
        match res {
            Ok(_) => Ok(()),
            Err(_) => Err(GameError::StateError),
        }
    }

    /// One player stands; never fails for a seated player, idempotent.
    pub fn stand_player(&mut self, player_id: &str, timestamp: u64) -> (r: Result<
        (),
        GameError,
    >)
        requires
            old(self).wf(),
        ensures
            final(self).wf(),
            final(self).game == old(self).game,
            final(self).deck == old(self).deck,
            ({
                let hands = old(self).players_with_hand@;
                let idx = find_hand(hands, player_id@);
                &&& idx == -1 ==> r == Err::<(), GameError>(GameError::NotFoundError)
                    && *final(self) == *old(self)
                &&& idx >= 0 ==> r == Ok::<(), GameError>(()) && final(self).players_with_hand@
                    == hands.update(idx, stood(hands[idx], timestamp))
            }),
    {
        let idx = match self.find_hand_index(player_id) {
            Some(i) => i,
            None => {
                return Err(GameError::NotFoundError);
            },
        };
        proof {
            lemma_find_hand_from(old(self).players_with_hand@, player_id@, 0);
        }
        let ghost hands0 = self.players_with_hand@;
        let mut h = self.players_with_hand.remove(idx);
        let res = h.stand(timestamp);
        self.players_with_hand.insert(idx, h);
        proof {
            lemma_remove_insert(hands0, idx as int, h);
        }
        match res {
            Ok(_) => Ok(()),
            Err(_) => Err(GameError::StateError),
        }
    }
}

} // verus!
