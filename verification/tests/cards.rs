use blackjack::card::{Card, Suit, Value};
use blackjack::deck::{Deck, EmptyDeck};

const SUITS: [Suit; 4] = [Suit::Clubs, Suit::Diamonds, Suit::Hearts, Suit::Spades];

const VALUES: [Value; 13] = [
    Value::Ace,
    Value::Two,
    Value::Three,
    Value::Four,
    Value::Five,
    Value::Six,
    Value::Seven,
    Value::Eight,
    Value::Nine,
    Value::Ten,
    Value::Jack,
    Value::Queen,
    Value::King,
];

#[test]
fn card_new_keeps_suit_and_value() {
    let card = Card::new(Suit::Hearts, Value::Queen);
    assert_eq!(card.suit, Suit::Hearts);
    assert_eq!(card.value, Value::Queen);
    assert_eq!(card, Card { value: Value::Queen, suit: Suit::Hearts });
}

#[test]
fn cards_are_equal_when_both_fields_match() {
    let queen = Card::new(Suit::Hearts, Value::Queen);
    assert_eq!(queen, Card::new(Suit::Hearts, Value::Queen));
    assert_ne!(queen, Card::new(Suit::Spades, Value::Queen));
    assert_ne!(queen, Card::new(Suit::Hearts, Value::King));
}

#[test]
fn ordinals_run_from_one_to_thirteen() {
    for (i, value) in VALUES.iter().enumerate() {
        assert_eq!(value.ordinal() as usize, i + 1);
    }
}

#[test]
fn suit_names() {
    assert_eq!(Suit::Diamonds.name(), "Diamonds");
    assert_eq!(Suit::Hearts.name(), "Hearts");
    assert_eq!(Suit::Clubs.name(), "Clubs");
    assert_eq!(Suit::Spades.name(), "Spades");
}

#[test]
fn value_names() {
    let names = [
        "Ace", "2", "3", "4", "5", "6", "7", "8", "9", "10", "Jack", "Queen", "King",
    ];
    for (value, name) in VALUES.iter().zip(names.iter()) {
        assert_eq!(value.name(), *name);
    }
}

#[test]
fn card_descriptions() {
    assert_eq!(Card::new(Suit::Hearts, Value::Queen).description(), "Queen of Hearts");
    assert_eq!(Card::new(Suit::Clubs, Value::Ten).description(), "10 of Clubs");
    assert_eq!(Card::new(Suit::Spades, Value::Ace).description(), "Ace of Spades");
    assert_eq!(Card::new(Suit::Diamonds, Value::Two).description(), "2 of Diamonds");
}

#[test]
fn positions_follow_the_catalog() {
    let mut position: u8 = 0;
    for suit in SUITS.iter() {
        for value in VALUES.iter() {
            let card = Card::new(*suit, *value);
            assert_eq!(card.position(), position);
            assert_eq!(Card::at(position), Some(card));
            position += 1;
        }
    }
    assert_eq!(position, 52);
}

#[test]
fn the_catalog_ends_at_51() {
    assert_eq!(Card::at(51), Some(Card::new(Suit::Spades, Value::King)));
    assert_eq!(Card::at(52), None);
    assert_eq!(Card::at(255), None);
}

#[test]
fn new_deck_holds_the_catalog_in_order() {
    let deck = Deck::new();
    assert_eq!(deck.0.len(), 52);
    let mut i = 0;
    for suit in SUITS.iter() {
        for value in VALUES.iter() {
            assert_eq!(deck.0[i], Card::new(*suit, *value));
            i += 1;
        }
    }
    assert_eq!(deck.0[0], Card::new(Suit::Clubs, Value::Ace));
    assert_eq!(deck.0[13], Card::new(Suit::Diamonds, Value::Ace));
    assert_eq!(deck.0[51], Card::new(Suit::Spades, Value::King));
}

#[test]
fn new_decks_are_alike() {
    assert_eq!(Deck::new().0, Deck::new().0);
}

#[test]
fn draw_takes_the_last_card() {
    let mut deck = Deck::new();
    assert_eq!(deck.draw(), Ok(Card::new(Suit::Spades, Value::King)));
    assert_eq!(deck.draw(), Ok(Card::new(Suit::Spades, Value::Queen)));
    assert_eq!(deck.0.len(), 50);
    assert_eq!(deck.0[49], Card::new(Suit::Spades, Value::Jack));
}

#[test]
fn draw_fails_on_an_empty_deck() {
    let mut deck = Deck(vec![Card::new(Suit::Clubs, Value::Two)]);
    assert_eq!(deck.draw(), Ok(Card::new(Suit::Clubs, Value::Two)));
    assert_eq!(deck.draw(), Err(EmptyDeck));
    assert_eq!(deck.draw(), Err(EmptyDeck));
    assert!(deck.0.is_empty());
}

#[test]
fn a_full_deck_can_be_drawn_52_times() {
    let mut deck = Deck::new();
    for _ in 0..52 {
        assert!(deck.draw().is_ok());
    }
    assert_eq!(deck.draw(), Err(EmptyDeck));
}

#[test]
fn return_all_appends_and_empties() {
    let mut deck = Deck(vec![Card::new(Suit::Clubs, Value::Two)]);
    let mut cards = vec![Card::new(Suit::Hearts, Value::Nine), Card::new(Suit::Spades, Value::Ace)];
    deck.return_all(&mut cards);
    assert!(cards.is_empty());
    assert_eq!(
        deck.0,
        vec![
            Card::new(Suit::Clubs, Value::Two),
            Card::new(Suit::Hearts, Value::Nine),
            Card::new(Suit::Spades, Value::Ace),
        ]
    );
}

#[test]
fn shuffle_keeps_the_cards() {
    let mut deck = Deck::new();
    deck.shuffle();
    assert_eq!(deck.0.len(), 52);
    let mut positions: Vec<u8> = deck.0.iter().map(|card| card.position()).collect();
    positions.sort();
    let all: Vec<u8> = (0..52).collect();
    assert_eq!(positions, all);
}

#[test]
fn shuffle_keeps_the_cards_of_a_short_deck() {
    let mut deck = Deck(vec![
        Card::new(Suit::Clubs, Value::Two),
        Card::new(Suit::Clubs, Value::Two),
        Card::new(Suit::Hearts, Value::Nine),
    ]);
    deck.shuffle();
    let mut positions: Vec<u8> = deck.0.iter().map(|card| card.position()).collect();
    positions.sort();
    assert_eq!(positions, vec![1, 1, 34]);
    let mut empty = Deck(Vec::new());
    empty.shuffle();
    assert!(empty.0.is_empty());
}

#[test]
fn shuffle_changes_the_order() {
    let fresh = Deck::new().0;
    let mut changed = false;
    for _ in 0..4 {
        let mut deck = Deck::new();
        deck.shuffle();
        if deck.0 != fresh {
            changed = true;
        }
    }
    assert!(changed);
}
