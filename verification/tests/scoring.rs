use blackjack::card::{Card, Suit, Value};
use blackjack::hand::Hand;

fn hand_of(cards: &[(Value, Suit)]) -> Hand {
    let mut hand = Hand::new();
    for (value, suit) in cards {
        hand.add_card(Card::new(*suit, *value));
    }
    hand
}

#[test]
fn new_hand_is_empty_and_scores_nothing() {
    let hand = Hand::new();
    assert!(hand.0.is_empty());
    assert_eq!(hand.score(), 0);
}

#[test]
fn add_card_appends() {
    let mut hand = Hand::new();
    hand.add_card(Card::new(Suit::Clubs, Value::Nine));
    hand.add_card(Card::new(Suit::Spades, Value::King));
    assert_eq!(
        hand.0,
        vec![Card::new(Suit::Clubs, Value::Nine), Card::new(Suit::Spades, Value::King)]
    );
}

#[test]
fn clear_empties_the_hand() {
    let mut hand = hand_of(&[(Value::Nine, Suit::Clubs), (Value::King, Suit::Spades)]);
    hand.clear();
    assert!(hand.0.is_empty());
    assert_eq!(hand.score(), 0);
}

#[test]
fn score_hard_hand() {
    let hand = hand_of(&[(Value::Nine, Suit::Clubs), (Value::King, Suit::Spades)]);
    assert_eq!(hand.score(), 19);
}

#[test]
fn score_single_soft_ace() {
    let hand = hand_of(&[(Value::Ace, Suit::Spades), (Value::Nine, Suit::Hearts)]);
    assert_eq!(hand.score(), 20);
}

#[test]
fn score_single_ace_forced_hard() {
    let hand = hand_of(&[
        (Value::Ace, Suit::Spades),
        (Value::King, Suit::Hearts),
        (Value::Five, Suit::Clubs),
    ]);
    assert_eq!(hand.score(), 16);
}

#[test]
fn score_two_aces_soft() {
    let hand = hand_of(&[
        (Value::Ace, Suit::Clubs),
        (Value::Ace, Suit::Spades),
        (Value::Eight, Suit::Hearts),
    ]);
    assert_eq!(hand.score(), 20);
}

#[test]
fn score_two_aces_forced_hard() {
    let hand = hand_of(&[
        (Value::Ace, Suit::Clubs),
        (Value::Ace, Suit::Spades),
        (Value::King, Suit::Hearts),
        (Value::Nine, Suit::Diamonds),
    ]);
    assert_eq!(hand.score(), 21);
}

#[test]
fn score_of_each_value_alone() {
    let expected: [(Value, i16); 13] = [
        (Value::Ace, 11),
        (Value::Two, 2),
        (Value::Three, 3),
        (Value::Four, 4),
        (Value::Five, 5),
        (Value::Six, 6),
        (Value::Seven, 7),
        (Value::Eight, 8),
        (Value::Nine, 9),
        (Value::Ten, 10),
        (Value::Jack, 10),
        (Value::Queen, 10),
        (Value::King, 10),
    ];
    for (value, score) in expected.iter() {
        assert_eq!(hand_of(&[(*value, Suit::Hearts)]).score(), *score);
    }
}

#[test]
fn score_ignores_suits_and_order() {
    let one = hand_of(&[(Value::Ace, Suit::Clubs), (Value::Seven, Suit::Hearts)]);
    let other = hand_of(&[(Value::Seven, Suit::Spades), (Value::Ace, Suit::Diamonds)]);
    assert_eq!(one.score(), 18);
    assert_eq!(other.score(), 18);
}

#[test]
fn score_natural() {
    let hand = hand_of(&[(Value::Ace, Suit::Spades), (Value::King, Suit::Hearts)]);
    assert_eq!(hand.score(), 21);
}

#[test]
fn score_single_ace_at_the_edge() {
    let soft = hand_of(&[
        (Value::Ace, Suit::Spades),
        (Value::Four, Suit::Hearts),
        (Value::Six, Suit::Hearts),
    ]);
    assert_eq!(soft.score(), 21);
    let hard = hand_of(&[
        (Value::Ace, Suit::Spades),
        (Value::Five, Suit::Hearts),
        (Value::Six, Suit::Hearts),
    ]);
    assert_eq!(hard.score(), 12);
}

#[test]
fn score_pair_of_aces() {
    let hand = hand_of(&[(Value::Ace, Suit::Spades), (Value::Ace, Suit::Hearts)]);
    assert_eq!(hand.score(), 12);
}

#[test]
fn score_several_aces() {
    let three = hand_of(&[
        (Value::Ace, Suit::Spades),
        (Value::Ace, Suit::Hearts),
        (Value::Ace, Suit::Clubs),
    ]);
    assert_eq!(three.score(), 13);
    let four_and_seven = hand_of(&[
        (Value::Ace, Suit::Spades),
        (Value::Ace, Suit::Hearts),
        (Value::Ace, Suit::Clubs),
        (Value::Ace, Suit::Diamonds),
        (Value::Seven, Suit::Diamonds),
    ]);
    assert_eq!(four_and_seven.score(), 21);
    let four_and_eight = hand_of(&[
        (Value::Ace, Suit::Spades),
        (Value::Ace, Suit::Hearts),
        (Value::Ace, Suit::Clubs),
        (Value::Ace, Suit::Diamonds),
        (Value::Eight, Suit::Diamonds),
    ]);
    assert_eq!(four_and_eight.score(), 12);
}

#[test]
fn score_has_no_cap() {
    let hand = hand_of(&[
        (Value::King, Suit::Spades),
        (Value::Queen, Suit::Hearts),
        (Value::Jack, Suit::Clubs),
        (Value::Ten, Suit::Diamonds),
    ]);
    assert_eq!(hand.score(), 40);
}

#[test]
fn score_follows_the_hand() {
    let mut hand = hand_of(&[(Value::Ace, Suit::Spades), (Value::Five, Suit::Hearts)]);
    assert_eq!(hand.score(), 16);
    hand.add_card(Card::new(Suit::Clubs, Value::Nine));
    assert_eq!(hand.score(), 15);
    hand.add_card(Card::new(Suit::Clubs, Value::Seven));
    assert_eq!(hand.score(), 22);
}
