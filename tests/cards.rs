use wargame::wg::{game, Card, Deck, Suit, Value};

#[test]
fn fresh_deck_holds_each_card_once_in_order() {
    let deck = Deck::new_fresh_deck();
    assert_eq!(deck.length(), 52);
    let top = deck.get_card();
    assert!(matches!(top.value, Value::Two));
    assert!(matches!(top.suit, Suit::Spades));
    assert_eq!(top.get_value(), 2);
}

#[test]
fn card_values_run_from_two_to_ace() {
    assert_eq!(Card::new(Value::Two, Suit::Clubs).get_value(), 2);
    assert_eq!(Card::new(Value::Ten, Suit::Hearts).get_value(), 10);
    assert_eq!(Card::new(Value::Jack, Suit::Hearts).get_value(), 11);
    assert_eq!(Card::new(Value::Ace, Suit::Diamonds).get_value(), 14);
    assert_eq!(Value::Queen.name(), "Queen");
    assert_eq!(Value::Seven.name(), "7");
}

#[test]
fn cards_compare_by_value_alone() {
    let a = Card::new(Value::King, Suit::Clubs);
    let b = Card::new(Value::King, Suit::Spades);
    let c = Card::new(Value::Three, Suit::Clubs);
    assert!(a == b);
    assert!(c < a);
    assert!(a > c);
    assert!(a != c);
    assert_eq!(a.partial_cmp(&b), Some(std::cmp::Ordering::Equal));
}

#[test]
fn empty_deck_has_no_cards() {
    let deck = Deck::new();
    assert_eq!(deck.length(), 0);
    assert!(!deck.has_cards());
}

#[test]
fn split_takes_the_bottom_half_reversed() {
    let mut deck = Deck::new_fresh_deck();
    let other = deck.split();
    assert_eq!(deck.length(), 26);
    assert_eq!(other.length(), 26);
    // the bottom card of a fresh deck is the Ace of Clubs
    let top = other.get_card();
    assert!(matches!(top.value, Value::Ace));
    assert!(matches!(top.suit, Suit::Clubs));
    let kept = deck.get_card();
    assert!(matches!(kept.value, Value::Two));
    assert!(matches!(kept.suit, Suit::Spades));
}

#[test]
fn split_of_an_odd_deck_keeps_the_larger_half() {
    let mut source = Deck::new_fresh_deck();
    let mut three = Deck::new();
    for _ in 0..3 {
        source.give_card(&mut three);
    }
    let taken = three.split();
    assert_eq!(three.length(), 2);
    assert_eq!(taken.length(), 1);
    assert_eq!(taken.get_card().get_value(), 4);
}

#[test]
fn give_card_moves_the_top_card_to_the_bottom() {
    let mut deck = Deck::new_fresh_deck();
    let mut pile = Deck::new();
    deck.give_card(&mut pile);
    deck.give_card(&mut pile);
    assert_eq!(deck.length(), 50);
    assert_eq!(pile.length(), 2);
    assert_eq!(pile.get_card().get_value(), 2);
    assert_eq!(deck.get_card().get_value(), 4);
}

#[test]
fn give_card_from_an_empty_deck_does_nothing() {
    let mut empty = Deck::new();
    let mut pile = Deck::new_fresh_deck();
    empty.give_card(&mut pile);
    assert_eq!(empty.length(), 0);
    assert_eq!(pile.length(), 52);
}

#[test]
fn give_cards_moves_every_card_in_order() {
    let mut deck = Deck::new_fresh_deck();
    let mut pile = Deck::new();
    deck.give_card(&mut pile);
    let mut rest = Deck::new();
    deck.give_cards(&mut rest);
    assert_eq!(deck.length(), 0);
    assert_eq!(rest.length(), 51);
    assert_eq!(rest.get_card().get_value(), 3);
    rest.give_cards(&mut pile);
    assert_eq!(pile.length(), 52);
    assert_eq!(pile.get_card().get_value(), 2);
}

#[test]
fn shuffle_keeps_the_cards_and_changes_the_order() {
    let mut rng = rand::thread_rng();
    let mut changed = false;
    for _ in 0..5 {
        let mut deck = Deck::new_fresh_deck();
        deck.shuffle(&mut rng);
        assert_eq!(deck.length(), 52);
        let mut counts = [0usize; 15];
        let mut order = Vec::new();
        let mut pile = Deck::new();
        while deck.has_cards() {
            let c = deck.get_card();
            counts[c.get_value() as usize] += 1;
            order.push(c.get_value());
            deck.give_card(&mut pile);
        }
        for v in 2..15 {
            assert_eq!(counts[v], 4);
        }
        let fresh: Vec<i32> = (0..52).map(|k| (k % 13) as i32 + 2).collect();
        if order != fresh {
            changed = true;
        }
    }
    assert!(changed);
}

#[test]
fn a_game_keeps_all_fifty_two_cards() {
    let mut rng = rand::thread_rng();
    for _ in 0..20 {
        let outcome = game(&mut rng);
        assert_eq!(outcome.first + outcome.second + outcome.pot, 52);
        assert!(outcome.turns >= 1);
        assert!(outcome.first == 0 || outcome.second == 0 || outcome.first < 4 || outcome.second < 4);
    }
}

#[test]
fn cards_and_decks_as_text() {
    assert_eq!(Card::new(Value::Ace, Suit::Spades).text(), "Ace of Spades");
    assert_eq!(Card::new(Value::Ten, Suit::Hearts).text(), "10 of Hearts");
    assert_eq!(Suit::Diamonds.name(), "Diamonds");
    let mut source = Deck::new_fresh_deck();
    let mut three = Deck::new();
    for _ in 0..3 {
        source.give_card(&mut three);
    }
    assert_eq!(three.text(), "2 of Spades, 3 of Spades, 4 of Spades");
    assert_eq!(Deck::new().text(), "");
}
