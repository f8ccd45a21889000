//! Players and their per-round hands.

use vstd::prelude::*;

use crate::cards::{rank_points, Card, Deck, Rank};
use crate::codec::{bs58_encode, bs58_of};

verus! {

/// A balance placeholder; betting is not part of this design.
pub struct Credit {
    pub amount: u32,
    pub symbol: String,
}

/// The cards a player holds in a round.
pub struct Hand(pub Vec<Card>);

/// A stable player identity derived from a sender address.
pub struct Player {
    pub id: String,
    pub name: String,
}

impl Player {
    pub fn new(id: String, name: String) -> (p: Player)
        ensures
            p.id == id,
            p.name == name,
    {
        Player { id, name }
    }

    /// A player keyed by the base58 encoding of its own name.
    pub fn new_without_id(name: String) -> (p: Player)
        ensures
            p.id@ == bs58_of(name@),
            p.name == name,
    {
        let id = bs58_encode(name.as_str());
        Player { id, name }
    }

    pub fn get_id(&self) -> (id: String)
        ensures
            id == self.id,
    {
        self.id.clone()
    }

}

/// Error raised by the hand state machine.
#[derive(Clone, Copy, PartialEq, Eq, Structural, Debug)]
pub enum HandError {
    /// The hand already counts 21 points or more.
    Busted,
    /// The hand is standing and cannot act.
    AlreadyStanding,
    /// The shared deck has no card left.
    DeckEmpty,
    /// A recognized action with no implemented effect.
    NotImplemented,
}

/// Points after drawing `c` onto `p` points: add the card's value, and when
/// that passes 21 with the drawn card an ace, count that ace as 1 instead
/// of 11. The correction looks at the card just drawn only, never at aces
/// already in the hand: that narrower rule is the specified behaviour.
pub open spec fn hit_points(p: int, c: Card) -> int {
    let q = p + rank_points(c.rank);
    if c.rank == Rank::Ace && q > 21 {
        q - 10
    } else {
        q
    }
}

/// The score of a hand, folding `hit_points` over the cards in draw order.
pub open spec fn score_of(s: Seq<Card>) -> int
    decreases s.len(),
{
    if s.len() == 0 {
        0
    } else {
        hit_points(score_of(s.drop_last()), s.last())
    }
}

pub proof fn lemma_score_push(s: Seq<Card>, c: Card)
    ensures
        score_of(s.push(c)) == hit_points(score_of(s), c),
{
    assert(s.push(c).drop_last() =~= s);
    assert(s.push(c).last() == c);
}

/// One player's mutable state within a round.
pub struct PlayerHand {
    pub player_id: String,
    pub hand: Hand,
    pub points: u8,
    pub is_standing: bool,
    pub round: u8,
    pub last_timestamp: u64,
}

/// The state a hand reaches by standing at `timestamp`.
pub open spec fn stood(h: PlayerHand, timestamp: u64) -> PlayerHand {
    PlayerHand { is_standing: true, last_timestamp: timestamp, ..h }
}

/// Standing is idempotent: a second `stand`, at any timestamp, lands in the
/// same state that one `stand` at that timestamp reaches.
pub proof fn lemma_stand_idempotent(h: PlayerHand, t1: u64, t2: u64)
    ensures
        stood(stood(h, t1), t2) == stood(h, t2),
{
}

impl PlayerHand {
    /// Internal consistency: the stored points score the stored cards, and
    /// the draw-round counter stays within one of the points, which bounds
    /// both (each draw raises the score by at least one, and draws stop at
    /// 21 points).
    pub open spec fn wf(&self) -> bool {
        &&& self.points as int == score_of(self.hand.0@)
        &&& self.points <= 31
        &&& self.round as int <= self.points as int + 1
        &&& self.round >= 1
    }

    pub fn new(player_id: String, last_timestamp: u64) -> (h: PlayerHand)
        ensures
            h.player_id == player_id,
            h.hand.0@ == Seq::<Card>::empty(),
            h.points == 0,
            !h.is_standing,
            h.round == 1,
            h.last_timestamp == last_timestamp,
            h.wf(),
    {
        PlayerHand {
            player_id,
            hand: Hand(Vec::new()),
            points: 0,
            is_standing: false,
            round: 1,
            last_timestamp,
        }
    }

    /// The draw-round counter: 1 plus the number of successful draws.
    pub fn get_round(&self) -> (r: u8)
        ensures
            r == self.round,
    {
        self.round
    }

    pub fn get_player_id(&self) -> (id: String)
        ensures
            id == self.player_id,
    {
        self.player_id.clone()
    }

    /// Draws one card from the shared deck and scores it.
    ///
    /// Fails with `Busted` at 21 points or more, with `AlreadyStanding`
    /// on a standing hand, and with `DeckEmpty` on an exhausted deck;
    /// every failure leaves hand and deck untouched (a round whose deck
    /// ran dry still ends through stands or an explicit stop). Otherwise
    /// the seeded card moves from the deck into the hand, the score
    /// applies the ace correction, the hand stands automatically at 21
    /// points or more, and the draw-round counter steps by one.
    pub fn hit(&mut self, deck: &mut Deck, timestamp: u64) -> (r: Result<(), HandError>)
        requires
            old(self).wf(),
        ensures
            final(self).wf(),
            final(self).player_id == old(self).player_id,
            old(self).points >= 21 ==> r == Err::<(), HandError>(HandError::Busted)
                && *final(self) == *old(self) && *final(deck) == *old(deck),
            old(self).points < 21 && old(self).is_standing ==> r == Err::<(), HandError>(
                HandError::AlreadyStanding,
            ) && *final(self) == *old(self) && *final(deck) == *old(deck),
            old(self).points < 21 && !old(self).is_standing && old(deck).cards@.len() == 0 ==> r
                == Err::<(), HandError>(HandError::DeckEmpty) && *final(self) == *old(self)
                && *final(deck) == *old(deck),
            old(self).points < 21 && !old(self).is_standing && old(deck).cards@.len() > 0 ==> ({
                let i = timestamp as int % old(deck).cards@.len() as int;
                let c = old(deck).cards@[i];
                &&& r == Ok::<(), HandError>(())
                &&& final(deck).cards@ == old(deck).cards@.remove(i)
                &&& final(self).hand.0@ == old(self).hand.0@.push(c)
                &&& final(self).points as int == hit_points(old(self).points as int, c)
                &&& final(self).is_standing == (hit_points(old(self).points as int, c) >= 21)
                &&& final(self).round == old(self).round + 1
                &&& final(self).last_timestamp == old(self).last_timestamp
            }),
    {
        if self.points >= 21 {
            return Err(HandError::Busted);
        }
        if self.is_standing {
            return Err(HandError::AlreadyStanding);
        }
        let card = match deck.draw(timestamp) {
            Ok(card) => card,
            Err(_) => {
                return Err(HandError::DeckEmpty);
            },
        };
        let card_point = card.show_point();
        let q = self.points + card_point;
        let new_points = if matches!(card.rank, Rank::Ace) && q > 21 {
            q - 10
        } else {
            q
        };
        proof {
            lemma_score_push(self.hand.0@, card);
        }
        self.points = new_points;
        self.is_standing = new_points >= 21;
        self.hand.0.push(card);
        self.round = self.round + 1;
        Ok(())
    }

    /// Stands: terminal for the round, never fails, idempotent.
    pub fn stand(&mut self, last_timestamp: u64) -> (r: Result<(), HandError>)
        ensures
            r == Ok::<(), HandError>(()),
            *final(self) == stood(*old(self), last_timestamp),
            old(self).wf() ==> final(self).wf(),
    {
        self.is_standing = true;
        self.last_timestamp = last_timestamp;
        Ok(())
    }

    /// Doubling the bet is a recognized action with no implemented effect:
    /// it reports that and never touches the hand.
    pub fn double_down(&mut self) -> (r: Result<(), HandError>)
        ensures
            *final(self) == *old(self),
            old(self).is_standing ==> r == Err::<(), HandError>(HandError::AlreadyStanding),
            !old(self).is_standing ==> r == Err::<(), HandError>(HandError::NotImplemented),
    {
        if self.is_standing {
            return Err(HandError::AlreadyStanding);
        }
        Err(HandError::NotImplemented)
    }

    /// Splitting is a recognized action with no implemented effect.
    pub fn split() -> (r: Result<(), HandError>)
        ensures
            r == Err::<(), HandError>(HandError::NotImplemented),
    {
        Err(HandError::NotImplemented)
    }

    /// Surrendering is a recognized action with no implemented effect.
    pub fn surrender() -> (r: Result<(), HandError>)
        ensures
            r == Err::<(), HandError>(HandError::NotImplemented),
    {
        Err(HandError::NotImplemented)
    }
}

} // verus!
