//! Cards, decks, and the deterministic draw rule.

use vstd::prelude::*;

verus! {

/// The four suits, in the fixed enumeration order used when a deck is built.
#[derive(Clone, Copy, PartialEq, Eq, Structural, Debug)]
pub enum Suit {
    Clubs,
    Diamonds,
    Hearts,
    Spades,
}

/// The thirteen ranks, in the fixed enumeration order used when a deck is built.
#[derive(Clone, Copy, PartialEq, Eq, Structural, Debug)]
pub enum Rank {
    Two,
    Three,
    Four,
    Five,
    Six,
    Seven,
    Eight,
    Nine,
    Ten,
    Jack,
    Queen,
    King,
    Ace,
}

/// A playing card; immutable once created.
#[derive(Clone, Copy, PartialEq, Eq, Structural, Debug)]
pub struct Card {
    pub rank: Rank,
    pub suit: Suit,
}

/// Blackjack value of a rank: face value, 10 for court cards, 11 for an ace.
pub open spec fn rank_points(r: Rank) -> u8 {
    match r {
        Rank::Two => 2,
        Rank::Three => 3,
        Rank::Four => 4,
        Rank::Five => 5,
        Rank::Six => 6,
        Rank::Seven => 7,
        Rank::Eight => 8,
        Rank::Nine => 9,
        Rank::Ten => 10,
        Rank::Jack => 10,
        Rank::Queen => 10,
        Rank::King => 10,
        Rank::Ace => 11,
    }
}

impl Card {
    /// Blackjack value of this card.
    pub fn show_point(&self) -> (p: u8)
        ensures
            p == rank_points(self.rank),
            2 <= p <= 11,
    {
        match self.rank {
            Rank::Two => 2,
            Rank::Three => 3,
            Rank::Four => 4,
            Rank::Five => 5,
            Rank::Six => 6,
            Rank::Seven => 7,
            Rank::Eight => 8,
            Rank::Nine => 9,
            Rank::Ten => 10,
            Rank::Jack => 10,
            Rank::Queen => 10,
            Rank::King => 10,
            Rank::Ace => 11,
        }
    }
}

/// The rank at position `i` of the fixed enumeration order.
pub open spec fn rank_of(i: int) -> Rank {
    if i == 0 {
        Rank::Two
    } else if i == 1 {
        Rank::Three
    } else if i == 2 {
        Rank::Four
    } else if i == 3 {
        Rank::Five
    } else if i == 4 {
        Rank::Six
    } else if i == 5 {
        Rank::Seven
    } else if i == 6 {
        Rank::Eight
    } else if i == 7 {
        Rank::Nine
    } else if i == 8 {
        Rank::Ten
    } else if i == 9 {
        Rank::Jack
    } else if i == 10 {
        Rank::Queen
    } else if i == 11 {
        Rank::King
    } else {
        Rank::Ace
    }
}

/// The suit at position `i` of the fixed enumeration order.
pub open spec fn suit_of(i: int) -> Suit {
    if i == 0 {
        Suit::Clubs
    } else if i == 1 {
        Suit::Diamonds
    } else if i == 2 {
        Suit::Hearts
    } else {
        Suit::Spades
    }
}

/// Card number `i` (0 <= i < 52) of one standard deck: thirteen ranks within
/// each suit, suits in enumeration order.
pub open spec fn card_at(i: int) -> Card {
    Card { rank: rank_of(i % 13), suit: suit_of(i / 13) }
}

/// The cards of `n` standard decks laid out in the fixed enumeration order:
/// deck copy after deck copy, each copy suit-major.
pub open spec fn fresh_cards(n: nat) -> Seq<Card> {
    Seq::new(n * 52, |i: int| card_at(i % 52))
}

fn rank_nth(i: usize) -> (r: Rank)
    requires
        i < 13,
    ensures
        r == rank_of(i as int),
{
    match i {
        0 => Rank::Two,
        1 => Rank::Three,
        2 => Rank::Four,
        3 => Rank::Five,
        4 => Rank::Six,
        5 => Rank::Seven,
        6 => Rank::Eight,
        7 => Rank::Nine,
        8 => Rank::Ten,
        9 => Rank::Jack,
        10 => Rank::Queen,
        11 => Rank::King,
        _ => Rank::Ace,
    }
}

fn suit_nth(i: usize) -> (s: Suit)
    requires
        i < 4,
    ensures
        s == suit_of(i as int),
{
    match i {
        0 => Suit::Clubs,
        1 => Suit::Diamonds,
        2 => Suit::Hearts,
        _ => Suit::Spades,
    }
}

/// Error raised by `Deck::draw`.
#[derive(Clone, Copy, PartialEq, Eq, Structural, Debug)]
pub enum DeckError {
    Empty,
}

/// Derives a draw position in `[0, bound)` from a coordinator-supplied seed.
///
/// This is a pure, total function of its inputs, so two replays given the
/// same seed and bound pick the same position. The seed is derived from
/// attacker-influenced timestamps: the draw is reproducible, not
/// unpredictable, which is a known fairness weakness of the protocol.
pub fn draw_index(seed: u64, bound: usize) -> (i: usize)
    requires
        bound > 0,
    ensures
        i as int == seed as int % bound as int,
        i < bound,
{
    (seed % (bound as u64)) as usize
}

/// An ordered, finite collection of cards drawn without replacement.
pub struct Deck {
    pub cards: Vec<Card>,
}

impl Deck {
    /// Builds `n` standard 52-card decks in the fixed enumeration order.
    /// No shuffle happens at creation: ordering comes from seeded draws.
    pub fn new(n: usize) -> (d: Deck)
        requires
            n * 52 <= usize::MAX,
        ensures
            d.cards@ == fresh_cards(n as nat),
            d.cards@.len() == n * 52,
    {
        let mut cards: Vec<Card> = Vec::new();
        let mut copy: usize = 0;
        while copy < n
            invariant
                copy <= n,
                n * 52 <= usize::MAX,
                cards@.len() == copy * 52,
                cards@ == fresh_cards(n as nat).take((copy * 52) as int),
            decreases n - copy,
        {
            let mut s: usize = 0;
            while s < 4
                invariant
                    copy < n,
                    s <= 4,
                    n * 52 <= usize::MAX,
                    cards@.len() == copy * 52 + s * 13,
                    cards@ == fresh_cards(n as nat).take((copy * 52 + s * 13) as int),
                decreases 4 - s,
            {
                let mut r: usize = 0;
                while r < 13
                    invariant
                        copy < n,
                        s < 4,
                        r <= 13,
                        n * 52 <= usize::MAX,
                        cards@.len() == copy * 52 + s * 13 + r,
                        cards@ == fresh_cards(n as nat).take((copy * 52 + s * 13 + r) as int),
                    decreases 13 - r,
                {
                    let card = Card { rank: rank_nth(r), suit: suit_nth(s) };
                    proof {
                        let k = copy * 52 + s * 13 + r;
                        assert(k < n * 52) by (nonlinear_arith)
                            requires
                                copy < n,
                                s < 4,
                                r < 13,
                                k == copy * 52 + s * 13 + r,
                        ;
                        assert(k % 52 == s * 13 + r) by (nonlinear_arith)
                            requires
                                s < 4,
                                r < 13,
                                k == copy * 52 + s * 13 + r,
                        ;
                        assert((s * 13 + r) % 13 == r) by (nonlinear_arith)
                            requires
                                s < 4,
                                r < 13,
                        ;
                        assert((s * 13 + r) / 13 == s) by (nonlinear_arith)
                            requires
                                s < 4,
                                r < 13,
                        ;
                        assert(fresh_cards(n as nat)[k as int] == card);
                        assert(fresh_cards(n as nat).take(k as int).push(card)
                            =~= fresh_cards(n as nat).take(k + 1));
                    }
                    cards.push(card);
                    r += 1;
                }
                s += 1;
            }
            copy += 1;
        }
        proof {
            assert(cards@ =~= fresh_cards(n as nat));
        }
        Deck { cards }
    }

    /// Number of cards left.
    pub fn len(&self) -> (n: usize)
        ensures
            n == self.cards@.len(),
    {
        self.cards.len()
    }

    /// Draws one card without replacement.
    ///
    /// Fails with `Empty` on an exhausted deck and changes nothing.
    /// Otherwise removes and returns the card at the seeded position,
    /// computed from the length observed at the moment of removal.
    pub fn draw(&mut self, seed: u64) -> (r: Result<Card, DeckError>)
        ensures
            old(self).cards@.len() == 0 ==> r == Err::<Card, DeckError>(DeckError::Empty)
                && *final(self) == *old(self),
            old(self).cards@.len() > 0 ==> ({
                let i = seed as int % old(self).cards@.len() as int;
                &&& r == Ok::<Card, DeckError>(old(self).cards@[i])
                &&& final(self).cards@ == old(self).cards@.remove(i)
                &&& final(self).cards@.len() == old(self).cards@.len() - 1
            }),
    {
        if self.cards.is_empty() {
            return Err(DeckError::Empty);
        }
        let i = draw_index(seed, self.cards.len());
        let card = self.cards.remove(i);
        Ok(card)
    }
}

/// A successful draw removes exactly the card at the seeded position: the
/// deck keeps every other card, in order, and the count of the drawn card
/// goes down by one. In a deck without duplicates the drawn card is gone
/// for good.
pub proof fn lemma_draw_removes_card(s: Seq<Card>, i: int)
    requires
        0 <= i < s.len(),
    ensures
        s.remove(i).to_multiset() == s.to_multiset().remove(s[i]),
        s.remove(i).to_multiset().count(s[i]) < s.to_multiset().count(s[i]),
        s.no_duplicates() ==> !s.remove(i).contains(s[i]),
{
    broadcast use vstd::seq_lib::group_to_multiset_ensures;

    assert(s.remove(i).to_multiset() =~= s.to_multiset().remove(s[i]));
    assert(s.to_multiset().contains(s[i]));
    if s.no_duplicates() {
        if s.remove(i).contains(s[i]) {
            let j = choose|j: int| 0 <= j < s.remove(i).len() && s.remove(i)[j] == s[i];
            if j < i {
                assert(s[j] == s[i]);
            } else {
                assert(s[j + 1] == s[i]);
            }
        }
    }
}

} // verus!
