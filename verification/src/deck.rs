//! The deck: the cards that are left to draw, the top card last.

use crate::card::{catalog, catalog_card, Card};
use rand::seq::SliceRandom;
use vstd::prelude::*;

verus! {

/// A draw was asked of a deck that holds no card.
#[derive(Copy, Clone, Debug, PartialEq, Eq)]
pub struct EmptyDeck;

/// An ordered pile of cards. Its last card is the top card, the one that
/// is drawn next.
#[derive(Debug)]
pub struct Deck(pub Vec<Card>);

impl View for Deck {
    type V = Seq<Card>;

    open spec fn view(&self) -> Seq<Card> {
        self.0@
    }
}

/// Reorders the cards in place with `rand::seq::SliceRandom::shuffle`, on
/// the generator that `rand::thread_rng` hands out. The shuffle only swaps
/// elements of the slice, so the cards after the call are the cards before
/// it, each as often as before. Nothing is claimed of their order. The
/// generator seeds and reseeds itself from the operating system and panics
/// if that source fails, which no argument of the call decides.
#[verifier::external_body]
fn shuffle_cards(cards: &mut Vec<Card>)
    ensures
        final(cards)@.to_multiset() == old(cards)@.to_multiset(),
{
    cards.shuffle(&mut rand::thread_rng());
}

impl Deck {
    /// A deck of all 52 cards in the order of the catalog, not shuffled.
    pub fn new() -> (deck: Deck)
        ensures
            deck@ == catalog(),
    {
        let mut cards: Vec<Card> = Vec::with_capacity(52);
        let mut position: u8 = 0;
        while position < 52
            invariant
                position <= 52,
                cards@.len() == position,
                forall|i: int| 0 <= i < position ==> cards@[i] == catalog_card(i),
            decreases 52 - position,
        {
            if let Some(card) = Card::at(position) {
                cards.push(card);
            }
            position += 1;
        }
        assert(cards@ =~= catalog());
        Deck(cards)
    }

    /// Puts the cards of the deck in a random order. The deck holds the
    /// same cards afterwards.
    pub fn shuffle(&mut self)
        ensures
            final(self)@.to_multiset() == old(self)@.to_multiset(),
            final(self)@.len() == old(self)@.len(),
    {
        shuffle_cards(&mut self.0);
        proof {
            old(self)@.to_multiset_ensures();
            self@.to_multiset_ensures();
        }
    }

    /// Takes the top card off the deck, or fails on a deck without cards
    /// and leaves it as it is.
    pub fn draw(&mut self) -> (drawn: Result<Card, EmptyDeck>)
        ensures
            old(self)@.len() > 0 ==> drawn == Ok::<Card, EmptyDeck>(old(self)@.last())
                && final(self)@ == old(self)@.drop_last(),
            old(self)@.len() == 0 ==> drawn == Err::<Card, EmptyDeck>(EmptyDeck)
                && final(self)@ == old(self)@,
    {
        match self.0.pop() {
            Some(card) => Ok(card),
            None => Err(EmptyDeck),
        }
    }

    /// Moves the given cards onto the deck, the first of them lowest, and
    /// leaves none behind. The deck is not shuffled by this.
    pub fn return_all(&mut self, cards: &mut Vec<Card>)
        ensures
            final(self)@ == old(self)@ + old(cards)@,
            final(cards)@ == Seq::<Card>::empty(),
    {
        self.0.append(cards);
    }
}

} // verus!
