//! Playing cards: the four suits, the thirteen values, and the catalog of
//! the 52 cards that a deck is made of.

use vstd::prelude::*;
use vstd::string::StringExecFns;

verus! {

/// One of the four suits. A suit has no effect on a hand's score.
#[derive(Copy, Clone, Debug, PartialEq, Eq, Structural, PartialOrd, Ord, Hash)]
pub enum Suit {
    Diamonds,
    Hearts,
    Clubs,
    Spades,
}

/// One of the thirteen values, Ace low. Jack, Queen and King score alike
/// and differ in name only.
#[derive(Copy, Clone, Debug, PartialEq, Eq, Structural, PartialOrd, Ord, Hash)]
pub enum Value {
    Ace,
    Two,
    Three,
    Four,
    Five,
    Six,
    Seven,
    Eight,
    Nine,
    Ten,
    Jack,
    Queen,
    King,
}

/// A playing card. Two cards are equal when suit and value are.
#[derive(Copy, Clone, Debug, PartialEq, Eq, Structural, PartialOrd, Ord, Hash)]
pub struct Card {
    pub value: Value,
    pub suit: Suit,
}

impl Suit {
    /// The place of the suit in the catalog: Clubs, Diamonds, Hearts, Spades.
    pub open spec fn place(self) -> int {
        match self {
            Suit::Clubs => 0,
            Suit::Diamonds => 1,
            Suit::Hearts => 2,
            Suit::Spades => 3,
        }
    }

    /// The suit at a place of the catalog; Spades from 3 on.
    pub open spec fn at(place: int) -> Suit {
        if place <= 0 {
            Suit::Clubs
        } else if place == 1 {
            Suit::Diamonds
        } else if place == 2 {
            Suit::Hearts
        } else {
            Suit::Spades
        }
    }

    /// The suit's name as it is shown.
    pub open spec fn name_spec(self) -> Seq<char> {
        match self {
            Suit::Diamonds => "Diamonds"@,
            Suit::Hearts => "Hearts"@,
            Suit::Clubs => "Clubs"@,
            Suit::Spades => "Spades"@,
        }
    }

    /// The suit's name.
    pub fn name(self) -> (text: &'static str)
        ensures
            text@ == self.name_spec(),
    {
        match self {
            Suit::Diamonds => "Diamonds",
            Suit::Hearts => "Hearts",
            Suit::Clubs => "Clubs",
            Suit::Spades => "Spades",
        }
    }
}

impl Value {
    /// The ordinal of the value: 1 for the Ace up to 13 for the King.
    pub open spec fn ordinal_spec(self) -> int {
        match self {
            Value::Ace => 1,
            Value::Two => 2,
            Value::Three => 3,
            Value::Four => 4,
            Value::Five => 5,
            Value::Six => 6,
            Value::Seven => 7,
            Value::Eight => 8,
            Value::Nine => 9,
            Value::Ten => 10,
            Value::Jack => 11,
            Value::Queen => 12,
            Value::King => 13,
        }
    }

    /// The value with a given ordinal; the Ace below 2, the King above 12.
    pub open spec fn of_ordinal(ordinal: int) -> Value {
        if ordinal <= 1 {
            Value::Ace
        } else if ordinal == 2 {
            Value::Two
        } else if ordinal == 3 {
            Value::Three
        } else if ordinal == 4 {
            Value::Four
        } else if ordinal == 5 {
            Value::Five
        } else if ordinal == 6 {
            Value::Six
        } else if ordinal == 7 {
            Value::Seven
        } else if ordinal == 8 {
            Value::Eight
        } else if ordinal == 9 {
            Value::Nine
        } else if ordinal == 10 {
            Value::Ten
        } else if ordinal == 11 {
            Value::Jack
        } else if ordinal == 12 {
            Value::Queen
        } else {
            Value::King
        }
    }

    /// What a card of this value adds to a hand before its aces are valued:
    /// nothing for an Ace, the face value from Two to Ten, 10 for Jack,
    /// Queen and King.
    pub open spec fn points(self) -> int {
        match self {
            Value::Ace => 0,
            Value::Jack | Value::Queen | Value::King => 10,
            _ => self.ordinal_spec(),
        }
    }

    /// The value's name as it is shown.
    pub open spec fn name_spec(self) -> Seq<char> {
        match self {
            Value::Ace => "Ace"@,
            Value::Two => "2"@,
            Value::Three => "3"@,
            Value::Four => "4"@,
            Value::Five => "5"@,
            Value::Six => "6"@,
            Value::Seven => "7"@,
            Value::Eight => "8"@,
            Value::Nine => "9"@,
            Value::Ten => "10"@,
            Value::Jack => "Jack"@,
            Value::Queen => "Queen"@,
            Value::King => "King"@,
        }
    }

    /// The ordinal of the value.
    pub fn ordinal(self) -> (n: u8)
        ensures
            n == self.ordinal_spec(),
            1 <= n <= 13,
    {
        match self {
            Value::Ace => 1,
            Value::Two => 2,
            Value::Three => 3,
            Value::Four => 4,
            Value::Five => 5,
            Value::Six => 6,
            Value::Seven => 7,
            Value::Eight => 8,
            Value::Nine => 9,
            Value::Ten => 10,
            Value::Jack => 11,
            Value::Queen => 12,
            Value::King => 13,
        }
    }

    /// The value's name: a word for the Ace and the three faces, digits
    /// for the others.
    pub fn name(self) -> (text: &'static str)
        ensures
            text@ == self.name_spec(),
    {
        match self {
            Value::Ace => "Ace",
            Value::Two => "2",
            Value::Three => "3",
            Value::Four => "4",
            Value::Five => "5",
            Value::Six => "6",
            Value::Seven => "7",
            Value::Eight => "8",
            Value::Nine => "9",
            Value::Ten => "10",
            Value::Jack => "Jack",
            Value::Queen => "Queen",
            Value::King => "King",
        }
    }
}

/// The card at a position of the catalog: the thirteen Clubs from Ace to
/// King, then the Diamonds, the Hearts and the Spades.
pub open spec fn catalog_card(position: int) -> Card {
    Card { value: Value::of_ordinal(position % 13 + 1), suit: Suit::at(position / 13) }
}

/// The catalog: each of the 52 cards once, in the order in which a new deck
/// holds them.
pub open spec fn catalog() -> Seq<Card> {
    Seq::new(52, |position: int| catalog_card(position))
}

impl Card {
    /// The card of a suit and a value.
    pub fn new(suit: Suit, value: Value) -> (card: Card)
        ensures
            card == (Card { value, suit }),
    {
        Card { value, suit }
    }

    /// The position of the card in the catalog, from 0 for the Ace of
    /// Clubs to 51 for the King of Spades.
    pub open spec fn position_spec(self) -> int {
        self.suit.place() * 13 + self.value.ordinal_spec() - 1
    }

    /// The card's description, such as "Queen of Hearts".
    pub open spec fn description_spec(self) -> Seq<char> {
        self.value.name_spec() + " of "@ + self.suit.name_spec()
    }

    /// The position of the card in the catalog.
    pub fn position(self) -> (position: u8)
        ensures
            position == self.position_spec(),
            position < 52,
            catalog_card(position as int) == self,
    {
        let place: u8 = match self.suit {
            Suit::Clubs => 0,
            Suit::Diamonds => 1,
            Suit::Hearts => 2,
            Suit::Spades => 3,
        };
        place * 13 + self.value.ordinal() - 1
    }

    /// The card at a position of the catalog, if the catalog reaches that
    /// far: it holds the positions 0 to 51.
    pub fn at(position: u8) -> (card: Option<Card>)
        ensures
            position < 52 ==> card == Some(catalog_card(position as int)),
            position < 52 ==> catalog_card(position as int).position_spec() == position,
            position >= 52 ==> card is None,
    {
        if position >= 52 {
            return None;
        }
        let suit = match position / 13 {
            0 => Suit::Clubs,
            1 => Suit::Diamonds,
            2 => Suit::Hearts,
            _ => Suit::Spades,
        };
        let value = match position % 13 {
            0 => Value::Ace,
            1 => Value::Two,
            2 => Value::Three,
            3 => Value::Four,
            4 => Value::Five,
            5 => Value::Six,
            6 => Value::Seven,
            7 => Value::Eight,
            8 => Value::Nine,
            9 => Value::Ten,
            10 => Value::Jack,
            11 => Value::Queen,
            _ => Value::King,
        };
        Some(Card { value, suit })
    }

    /// The card's description: its value, then its suit.
    pub fn description(&self) -> (text: String)
        ensures
            text@ == self.description_spec(),
    {
        let mut text = String::from_str(self.value.name());
        text.append(" of ");
        text.append(self.suit.name());
        text
    }
}

/// Every card stands in the catalog, at its position and nowhere else.
pub proof fn lemma_catalog_holds_each_card_once(card: Card)
    ensures
        0 <= card.position_spec() < 52,
        catalog()[card.position_spec()] == card,
        catalog().contains(card),
        catalog().no_duplicates(),
        catalog().to_multiset().count(card) == 1,
{
    broadcast use vstd::seq_lib::group_to_multiset_ensures;

    let p = card.position_spec();
    assert(catalog_card(p) == card);
    assert(catalog().no_duplicates()) by {
        assert forall|i: int, j: int|
            0 <= i < 52 && 0 <= j < 52 && i != j implies catalog()[i] != catalog()[j] by {
            assert(catalog_card(i).position_spec() == i);
            assert(catalog_card(j).position_spec() == j);
        }
    }
    catalog().lemma_multiset_has_no_duplicates();
    assert(catalog().contains(card)) by {
        assert(catalog()[p] == card);
    }
}

/// The cards of a sequence are those of the catalog, each once, exactly
/// when the sequence holds 52 cards and none of them twice.
pub proof fn lemma_full_deck(cards: Seq<Card>)
    ensures
        cards.to_multiset() == catalog().to_multiset() <==> cards.len() == 52
            && cards.no_duplicates(),
{
    broadcast use vstd::seq_lib::group_to_multiset_ensures;
    broadcast use vstd::seq_lib::seq_to_set_is_finite;

    if cards.to_multiset() == catalog().to_multiset() {
        cards.to_multiset_ensures();
        catalog().to_multiset_ensures();
        assert forall|card: Card| cards.to_multiset().contains(card) implies cards.to_multiset().count(
            card,
        ) == 1 by {
            lemma_catalog_holds_each_card_once(card);
        }
        cards.lemma_multiset_has_no_duplicates_conv();
    }
    if cards.len() == 52 && cards.no_duplicates() {
        assert(catalog().no_duplicates()) by {
            lemma_catalog_holds_each_card_once(catalog_card(0));
        }
        cards.unique_seq_to_set();
        catalog().unique_seq_to_set();
        assert(cards.to_set().subset_of(catalog().to_set())) by {
            assert forall|card: Card| catalog().to_set().contains(card) by {
                lemma_catalog_holds_each_card_once(card);
            }
        }
        vstd::set_lib::lemma_subset_equality(cards.to_set(), catalog().to_set());
        cards.lemma_multiset_has_no_duplicates();
        assert forall|card: Card| cards.to_multiset().count(card) == catalog().to_multiset().count(
            card,
        ) by {
            lemma_catalog_holds_each_card_once(card);
            assert(catalog().to_set().contains(card));
            assert(cards.to_set().contains(card));
            assert(cards.contains(card));
        }
        assert(cards.to_multiset() =~= catalog().to_multiset());
    }
}

} // verus!
