use blackjack::cards::{draw_index, Card, Deck, DeckError, Rank, Suit};
use blackjack::errors::GameError;
use blackjack::game::{Game, Table};
use blackjack::manager::Manager;
use blackjack::player::{Hand, Player, PlayerHand};

fn card(rank: Rank) -> Card {
    Card { rank, suit: Suit::Spades }
}

fn deck_of(ranks: &[Rank]) -> Deck {
    Deck { cards: ranks.iter().map(|r| card(*r)).collect() }
}

#[test]
fn fresh_deck_enumeration_order() {
    let d = Deck::new(1);
    assert_eq!(d.cards.len(), 52);
    assert_eq!(d.cards[0], Card { rank: Rank::Two, suit: Suit::Clubs });
    assert_eq!(d.cards[12], Card { rank: Rank::Ace, suit: Suit::Clubs });
    assert_eq!(d.cards[13], Card { rank: Rank::Two, suit: Suit::Diamonds });
    assert_eq!(d.cards[51], Card { rank: Rank::Ace, suit: Suit::Spades });
    let two = Deck::new(2);
    assert_eq!(two.cards.len(), 104);
    assert_eq!(two.cards[52], Card { rank: Rank::Two, suit: Suit::Clubs });
    assert_eq!(two.cards[103], Card { rank: Rank::Ace, suit: Suit::Spades });
}

#[test]
fn draw_index_is_seed_mod_bound() {
    assert_eq!(draw_index(0, 52), 0);
    assert_eq!(draw_index(5, 52), 5);
    assert_eq!(draw_index(57, 52), 5);
    assert_eq!(draw_index(u64::MAX, 1), 0);
}

#[test]
fn draw_takes_seeded_card_and_shrinks_deck() {
    let mut d = Deck::new(1);
    let c = d.draw(5).unwrap();
    assert_eq!(c, Card { rank: Rank::Seven, suit: Suit::Clubs });
    assert_eq!(d.cards.len(), 51);
    let mut empty = Deck { cards: Vec::new() };
    assert_eq!(empty.draw(0), Err(DeckError::Empty));
}

#[test]
fn drawn_card_never_reappears_in_single_deck() {
    let mut d = Deck::new(1);
    let c = d.draw(17).unwrap();
    assert_eq!(d.cards.len(), 51);
    assert!(!d.cards.contains(&c));
}

#[test]
fn draws_are_reproducible() {
    let mut a = Deck::new(2);
    let mut b = Deck::new(2);
    for seed in [3u64, 99, 7777] {
        assert_eq!(a.draw(seed).unwrap(), b.draw(seed).unwrap());
    }
}

#[test]
fn lobby_joins_increase_count_by_one_capped_at_seven() {
    let mut g = Game::new(1);
    for i in 0..7u32 {
        assert_eq!(g.players.len(), i as usize);
        assert!(g.player_join(format!("p{}", i)).is_ok());
        assert_eq!(g.players.len(), i as usize + 1);
    }
    assert_eq!(g.player_join("p7".to_string()), Err(GameError::CapacityError));
    assert_eq!(g.players.len(), 7);
}

#[test]
fn round_start_deals_two_full_passes() {
    let mut g = Game::new(1);
    for name in ["a", "b", "c"] {
        g.player_join(name.to_string()).unwrap();
    }
    // seed 0 always removes the front card, so the deal order is visible:
    // pass one hands out Two, Three, Four; pass two hands out Five, Six,
    // Seven (clubs of the first deck copy).
    let t = g.round_start(2, 0).unwrap();
    assert_eq!(t.deck.cards.len(), 104 - 6);
    assert_eq!(t.players_with_hand.len(), 3);
    let expect = [
        (Rank::Two, Rank::Five, 7u8),
        (Rank::Three, Rank::Six, 9),
        (Rank::Four, Rank::Seven, 11),
    ];
    for (h, (first, second, pts)) in t.players_with_hand.iter().zip(expect.iter()) {
        assert_eq!(h.hand.0.len(), 2);
        assert_eq!(h.hand.0[0].rank, *first);
        assert_eq!(h.hand.0[1].rank, *second);
        assert_eq!(h.points, *pts);
        assert!(!h.is_standing);
        assert_eq!(h.get_round(), 3);
    }
}

#[test]
fn round_start_needs_two_players() {
    let mut g = Game::new(4);
    g.player_join("only".to_string()).unwrap();
    assert!(matches!(g.round_start(2, 0), Err(GameError::CapacityError)));
}

#[test]
fn hit_on_busted_hand_fails_and_changes_nothing() {
    let mut h = PlayerHand::new("p".to_string(), 0);
    let mut d = deck_of(&[Rank::Ten, Rank::Ten, Rank::Ten, Rank::Ten]);
    assert!(h.hit(&mut d, 0).is_ok());
    assert!(h.hit(&mut d, 0).is_ok());
    assert_eq!(h.points, 20);
    assert!(h.hit(&mut d, 0).is_ok());
    // a ten on twenty is not softened: only a drawn ace is
    assert_eq!(h.points, 30);
    assert!(h.is_standing);
    let cards_before = h.hand.0.len();
    let deck_before = d.cards.len();
    assert_eq!(h.hit(&mut d, 0), Err(blackjack::player::HandError::Busted));
    assert_eq!(h.points, 30);
    assert_eq!(h.hand.0.len(), cards_before);
    assert_eq!(d.cards.len(), deck_before);
}

#[test]
fn hit_on_standing_hand_fails() {
    let mut h = PlayerHand::new("p".to_string(), 0);
    h.stand(1).unwrap();
    let mut d = deck_of(&[Rank::Two]);
    assert_eq!(h.hit(&mut d, 0), Err(blackjack::player::HandError::AlreadyStanding));
    assert_eq!(d.cards.len(), 1);
}

#[test]
fn hit_on_empty_deck_fails_and_changes_nothing() {
    let mut h = PlayerHand::new("p".to_string(), 0);
    let mut d = Deck { cards: Vec::new() };
    assert_eq!(h.hit(&mut d, 0), Err(blackjack::player::HandError::DeckEmpty));
    assert!(!h.is_standing, "a failed draw is transactional");
    assert_eq!(h.points, 0);
    assert_eq!(h.hand.0.len(), 0);
    assert_eq!(d.cards.len(), 0);
}

#[test]
fn stand_is_idempotent() {
    let mut h = PlayerHand::new("p".to_string(), 0);
    assert!(h.stand(5).is_ok());
    let (standing1, ts1, pts1, n1) = (h.is_standing, h.last_timestamp, h.points, h.hand.0.len());
    assert!(h.stand(5).is_ok());
    assert_eq!(h.is_standing, standing1);
    assert_eq!(h.last_timestamp, ts1);
    assert_eq!(h.points, pts1);
    assert_eq!(h.hand.0.len(), n1);
    assert!(h.is_standing);
}

#[test]
fn ace_scores_eleven_and_ace_ten_scores_twenty_one() {
    let mut h = PlayerHand::new("p".to_string(), 0);
    let mut d = deck_of(&[Rank::Ace]);
    h.hit(&mut d, 0).unwrap();
    assert_eq!(h.points, 11);
    assert!(!h.is_standing);
    let mut d2 = deck_of(&[Rank::Ten]);
    h.hit(&mut d2, 0).unwrap();
    assert_eq!(h.points, 21);
    assert!(h.is_standing);
    assert!(h.points <= 21, "twenty-one is not busted");
}

#[test]
fn drawn_ace_past_twenty_one_counts_one() {
    let mut h = PlayerHand::new("p".to_string(), 0);
    let mut d = deck_of(&[Rank::Ace, Rank::Ace]);
    h.hit(&mut d, 0).unwrap();
    h.hit(&mut d, 0).unwrap();
    // 11 + 11 would be 22; the drawn ace is softened to one
    assert_eq!(h.points, 12);
    assert!(!h.is_standing);
}

#[test]
fn double_down_split_surrender_not_implemented() {
    let mut h = PlayerHand::new("p".to_string(), 0);
    assert_eq!(h.double_down(), Err(blackjack::player::HandError::NotImplemented));
    h.stand(0).unwrap();
    assert_eq!(h.double_down(), Err(blackjack::player::HandError::AlreadyStanding));
    assert_eq!(PlayerHand::split(), Err(blackjack::player::HandError::NotImplemented));
    assert_eq!(PlayerHand::surrender(), Err(blackjack::player::HandError::NotImplemented));
}

#[test]
fn any_player_can_hit_is_false_exactly_when_all_stand() {
    let mut g = Game::new(9);
    g.player_join("a".to_string()).unwrap();
    g.player_join("b".to_string()).unwrap();
    let mut t = g.round_start(2, 0).unwrap();
    assert!(t.any_player_can_hit());
    t.stand_player("a", 1).unwrap();
    assert!(t.any_player_can_hit());
    t.stand_player("b", 2).unwrap();
    assert!(!t.any_player_can_hit());
}

#[test]
fn manager_auto_stops_round_once_every_hand_stands() {
    let mut m = Manager::new_with_games(1);
    m.add_player(Player::new("a".to_string(), "Ann".to_string())).unwrap();
    m.add_player(Player::new("b".to_string(), "Ben".to_string())).unwrap();
    m.player_join(0, "a".to_string()).unwrap();
    m.player_join(0, "b".to_string()).unwrap();
    m.start_game(0, 2, 7).unwrap();
    assert_eq!(m.games.len(), 0);
    assert_eq!(m.tables.len(), 1);
    m.stand_player(0, "a", 8).unwrap();
    assert_eq!(m.tables.len(), 1, "one hand can still act");
    m.stand_player(0, "b", 9).unwrap();
    assert_eq!(m.tables.len(), 0, "round ends when no hand can act");
    assert_eq!(m.games.len(), 1, "the lobby comes back");
    assert_eq!(m.games[0].get_id(), 0);
}

#[test]
fn manager_registry_basics() {
    let mut m = Manager::new_with_games(3);
    let ids = m.show_games_id_available();
    assert_eq!(ids, vec![0, 1, 2]);
    assert!(matches!(m.drop_game(9), Err(GameError::NotFoundError)));
    let g = m.drop_game(1).unwrap();
    assert_eq!(g.get_id(), 1);
    assert_eq!(m.show_games_id_available(), vec![0, 2]);

    assert!(m.add_player(Player::new("x".to_string(), "Xia".to_string())).is_ok());
    assert!(m.has_player("x"));
    assert_eq!(
        m.add_player(Player::new("x".to_string(), "Imp".to_string())),
        Err(GameError::StateError),
    );
    let p = m.remove_player_by_id("x".to_string()).unwrap();
    assert_eq!(p.get_id(), "x");
    assert!(!m.has_player("x"));
    assert!(matches!(m.remove_player_by_id("x".to_string()), Err(GameError::NotFoundError)));

    let mut empty = Manager::default();
    assert!(empty.first_game_available().is_err());
    let first = m.first_game_available().unwrap();
    assert_eq!(first.get_id(), 0);
}

#[test]
fn realocate_table_returns_its_lobby_to_the_pool() {
    let mut m = Manager::new_with_games(1);
    let g = m.drop_game(0).unwrap();
    assert_eq!(m.games.len(), 0);
    let table = Table {
        deck: Deck { cards: Vec::new() },
        players_with_hand: Vec::new(),
        game: g,
    };
    m.realocate_table_to_game(table);
    assert_eq!(m.games.len(), 1);
    assert_eq!(m.games[0].get_id(), 0);
}

#[test]
fn first_game_available_hands_out_a_mutable_lobby() {
    let mut m = Manager::new_with_games(2);
    let first = m.first_game_available().unwrap();
    assert_eq!(first.get_id(), 0);
    first.player_join("p".to_string()).unwrap();
    assert_eq!(m.games[0].players.len(), 1);
    assert_eq!(m.games[1].players.len(), 0);
}

#[test]
fn scoreboard_ranks_desc_flags_busted_and_names_joint_winners() {
    let mut m = Manager::default();
    let mk = |id: &str, points: u8| {
        let mut h = PlayerHand::new(id.to_string(), 0);
        h.points = points;
        h
    };
    let table = Table {
        deck: Deck { cards: Vec::new() },
        players_with_hand: vec![mk("low", 18), mk("bust", 22), mk("top1", 21), mk("top2", 21)],
        game: Game::new(6),
    };
    m.tables.push(table);
    let sb = m.get_scoreboard(6).unwrap();
    let pts: Vec<u8> = sb.rows.iter().map(|r| r.points).collect();
    assert_eq!(pts, vec![22, 21, 21, 18]);
    let busted: Vec<bool> = sb.rows.iter().map(|r| r.busted).collect();
    assert_eq!(busted, vec![true, false, false, false]);
    let winners: Vec<&str> = sb.winners.iter().map(|s| s.as_str()).collect();
    assert_eq!(winners, vec!["top1", "top2"]);
    assert!(matches!(m.get_scoreboard(7), Err(GameError::NotFoundError)));
}

#[test]
fn all_busted_round_has_no_winner() {
    let mut m = Manager::default();
    let mut h = PlayerHand::new("p".to_string(), 0);
    h.points = 25;
    let table =
        Table { deck: Deck { cards: Vec::new() }, players_with_hand: vec![h], game: Game::new(2) };
    m.tables.push(table);
    let sb = m.get_scoreboard(2).unwrap();
    assert_eq!(sb.rows.len(), 1);
    assert!(sb.winners.is_empty());
}

#[test]
fn hands_report_resolves_registered_names() {
    let mut m = Manager::new_with_games(1);
    m.add_player(Player::new("a".to_string(), "Ann".to_string())).unwrap();
    m.add_player(Player::new("b".to_string(), "Ben".to_string())).unwrap();
    m.player_join(0, "a".to_string()).unwrap();
    m.player_join(0, "b".to_string()).unwrap();
    m.start_game(0, 2, 0).unwrap();
    let hands = m.hands_report(0).unwrap();
    assert_eq!(hands.len(), 2);
    assert_eq!(hands[0].name, "Ann");
    assert_eq!(hands[1].name, "Ben");
    assert_eq!(hands[0].cards.len(), 2);
    assert!(matches!(m.hands_report(3), Err(GameError::NotFoundError)));
}

#[test]
fn generate_hand_reports_points_and_cards() {
    let mut h = PlayerHand::new("p".to_string(), 0);
    let mut d = deck_of(&[Rank::Nine]);
    h.hit(&mut d, 0).unwrap();
    let rep = h.generate_hand("Pat".to_string());
    assert_eq!(rep.name, "Pat");
    assert_eq!(rep.points, 9);
    assert_eq!(rep.cards.len(), 1);
    assert_eq!(rep.cards[0].rank, Rank::Nine);
}

#[test]
fn player_identities() {
    let p = Player::new("id1".to_string(), "Zoe".to_string());
    assert_eq!(p.get_id(), "id1");
    let q = Player::new_without_id("Alice".to_string());
    assert_eq!(q.get_id(), "8P7H1qe");
    assert_eq!(q.get_id(), bs58::encode("Alice").into_string());
    let credit = blackjack::player::Credit { amount: 10, symbol: "chip".to_string() };
    assert_eq!(credit.amount, 10);
    let hand = Hand(vec![Card { rank: Rank::Two, suit: Suit::Hearts }]);
    assert_eq!(hand.0.len(), 1);
}
