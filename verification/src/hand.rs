//! A hand of cards and its Blackjack score.

use crate::card::{Card, Value};
use vstd::prelude::*;

verus! {

/// The sum of what the cards of a hand add before its aces are valued.
pub open spec fn base_total(cards: Seq<Card>) -> int
    decreases cards.len(),
{
    if cards.len() == 0 {
        0
    } else {
        base_total(cards.drop_last()) + cards.last().value.points()
    }
}

/// The number of cards of one value in a hand.
pub open spec fn value_count(cards: Seq<Card>, value: Value) -> int
    decreases cards.len(),
{
    if cards.len() == 0 {
        0
    } else {
        value_count(cards.drop_last(), value) + if cards.last().value == value {
            1int
        } else {
            0int
        }
    }
}

/// The number of aces in a hand.
pub open spec fn ace_count(cards: Seq<Card>) -> int {
    value_count(cards, Value::Ace)
}

/// The total of a hand with each of its aces valued at 1.
pub open spec fn hard_total(cards: Seq<Card>) -> int {
    base_total(cards) + ace_count(cards)
}

/// The score of a hand. Without an ace it is the base total. A single ace
/// is valued at 11 unless the hand would then exceed 21, and at 1 if so.
/// Of several aces one is valued at 11 and the others at 1 unless the hand
/// would then exceed 21, and all of them at 1 if so.
pub open spec fn score_of(cards: Seq<Card>) -> int {
    let base = base_total(cards);
    let aces = ace_count(cards);
    if aces == 0 {
        base
    } else if aces == 1 {
        if base + 11 > 21 {
            base + 1
        } else {
            base + 11
        }
    } else {
        if base + 11 + (aces - 1) > 21 {
            base + aces
        } else {
            base + 11 + (aces - 1)
        }
    }
}

/// The cards of one party, in the order in which they were received.
#[derive(Debug)]
pub struct Hand(pub Vec<Card>);

impl View for Hand {
    type V = Seq<Card>;

    open spec fn view(&self) -> Seq<Card> {
        self.0@
    }
}

impl Hand {
    /// A hand without cards.
    pub fn new() -> (hand: Hand)
        ensures
            hand@ == Seq::<Card>::empty(),
    {
        Hand(Vec::new())
    }

    /// Puts a card behind the cards of the hand.
    pub fn add_card(&mut self, card: Card)
        ensures
            final(self)@ == old(self)@.push(card),
    {
        self.0.push(card);
    }

    /// Empties the hand.
    pub fn clear(&mut self)
        ensures
            final(self)@ == Seq::<Card>::empty(),
    {
        self.0.clear();
    }

    /// The score of the hand. It is computed from the cards at each call
    /// and has no upper bound: above 21 the hand is bust.
    pub fn score(&self) -> (score: i16)
        requires
            score_of(self@) <= i16::MAX,
        ensures
            score == score_of(self@),
    {
        let mut acc: i16 = 0;
        let mut aces: i16 = 0;
        let mut i: usize = 0;
        while i < self.0.len()
            invariant
                i <= self.0.len(),
                acc == base_total(self@.take(i as int)),
                aces == ace_count(self@.take(i as int)),
                score_of(self@) <= i16::MAX,
            decreases self.0.len() - i,
        {
            proof {
                lemma_totals_grow(self@, i as int + 1);
                assert(self@.take(i as int + 1).drop_last() == self@.take(i as int));
            }
            match self.0[i].value {
                Value::Ace => {
                    aces += 1;
                },
                Value::Jack | Value::Queen | Value::King => {
                    acc += 10;
                },
                value => {
                    acc += value.ordinal() as i16;
                },
            }
            i += 1;
        }
        proof {
            assert(self@.take(i as int) == self@);
            lemma_score_is_hard_or_soft(self@);
        }
        let hard = acc + aces;
        if aces >= 1 && hard <= 11 {
            hard + 10
        } else {
            hard
        }
    }
}

/// A hand scores its hard total, or 10 more where it holds an ace and stays
/// within 21 by it.
pub proof fn lemma_score_is_hard_or_soft(cards: Seq<Card>)
    ensures
        0 <= ace_count(cards) <= cards.len(),
        0 <= base_total(cards) <= 10 * (cards.len() - ace_count(cards)),
        score_of(cards) == if ace_count(cards) >= 1 && hard_total(cards) + 10 <= 21 {
            hard_total(cards) + 10
        } else {
            hard_total(cards)
        },
    decreases cards.len(),
{
    if cards.len() > 0 {
        lemma_score_is_hard_or_soft(cards.drop_last());
    }
}

/// The first cards of a hand total no more than the whole hand, in base
/// points and in aces.
pub proof fn lemma_totals_grow(cards: Seq<Card>, n: int)
    requires
        0 <= n <= cards.len(),
    ensures
        0 <= base_total(cards.take(n)) <= base_total(cards),
        0 <= ace_count(cards.take(n)) <= ace_count(cards),
        hard_total(cards) <= score_of(cards),
    decreases cards.len() - n,
{
    lemma_score_is_hard_or_soft(cards);
    lemma_score_is_hard_or_soft(cards.take(n));
    if n < cards.len() {
        lemma_totals_grow(cards, n + 1);
        assert(cards.take(n + 1).drop_last() == cards.take(n));
    } else {
        assert(cards.take(n) == cards);
    }
}

} // verus!
