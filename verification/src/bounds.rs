//! How many cards a hand can hold at a given score. Of each value there
//! are only four cards, so a hand of distinct cards that scores little is
//! short, and in a well-formed context the deck outlasts the round.

use crate::card::{Card, Suit, Value};
use crate::context::{lemma_conservation, GameContext};
use crate::hand::{
    ace_count, base_total, hard_total, lemma_score_is_hard_or_soft, lemma_totals_grow, score_of,
    value_count,
};
use crate::round::{dealer_settles, drawn};
use vstd::prelude::*;

verus! {

/// The cards of one value in a hand are those of its four suits.
proof fn lemma_value_count_by_suit(cards: Seq<Card>, value: Value)
    ensures
        value_count(cards, value) == cards.to_multiset().count(Card { value, suit: Suit::Clubs })
            + cards.to_multiset().count(Card { value, suit: Suit::Diamonds })
            + cards.to_multiset().count(Card { value, suit: Suit::Hearts })
            + cards.to_multiset().count(Card { value, suit: Suit::Spades }),
    decreases cards.len(),
{
    broadcast use vstd::multiset::group_multiset_axioms;
    broadcast use vstd::seq_lib::group_to_multiset_ensures;

    if cards.len() == 0 {
        cards.to_multiset_ensures();
    } else {
        let rest = cards.drop_last();
        lemma_value_count_by_suit(rest, value);
        assert(cards == rest.push(cards.last()));
        assert(cards.to_multiset() == rest.to_multiset().insert(cards.last()));
    }
}

/// Every card adds at least 3 to the hard total, but for an Ace, which
/// adds 1, and a Two, which adds 2.
proof fn lemma_hard_total_floor(cards: Seq<Card>)
    ensures
        hard_total(cards) >= 3 * cards.len() - 2 * value_count(cards, Value::Ace) - value_count(
            cards,
            Value::Two,
        ),
    decreases cards.len(),
{
    if cards.len() > 0 {
        lemma_hard_total_floor(cards.drop_last());
    }
}

/// A hand in which no card occurs twice scores at least three times its
/// length less 12: it holds four aces and four twos at most.
pub proof fn lemma_distinct_cards_score(cards: Seq<Card>)
    requires
        forall|card: Card| cards.to_multiset().count(card) <= 1,
    ensures
        score_of(cards) >= hard_total(cards) >= 3 * cards.len() - 12,
{
    lemma_value_count_by_suit(cards, Value::Ace);
    lemma_value_count_by_suit(cards, Value::Two);
    lemma_hard_total_floor(cards);
    lemma_totals_grow(cards, 0);
}

/// In a well-formed context a hand that is not bust holds 11 cards at
/// most, and neither hand scores more than 530.
pub proof fn lemma_hands_are_short(ctx: GameContext)
    requires
        ctx.wf(),
    ensures
        score_of(ctx.player@) <= 21 ==> ctx.player@.len() <= 11,
        score_of(ctx.dealer@) <= 21 ==> ctx.dealer@.len() <= 11,
        0 <= score_of(ctx.player@) <= 530,
        0 <= score_of(ctx.dealer@) <= 530,
{
    lemma_conservation(ctx);
    assert forall|card: Card| ctx.player@.to_multiset().count(card) <= 1 by {
        assert(ctx.deck@.to_multiset().count(card) + ctx.dealer@.to_multiset().count(card)
            + ctx.player@.to_multiset().count(card) == 1);
    }
    assert forall|card: Card| ctx.dealer@.to_multiset().count(card) <= 1 by {
        assert(ctx.deck@.to_multiset().count(card) + ctx.dealer@.to_multiset().count(card)
            + ctx.player@.to_multiset().count(card) == 1);
    }
    lemma_distinct_cards_score(ctx.player@);
    lemma_distinct_cards_score(ctx.dealer@);
    lemma_score_is_hard_or_soft(ctx.player@);
    lemma_score_is_hard_or_soft(ctx.dealer@);
}

/// Two cards never score more than 21.
pub proof fn lemma_two_cards_within_21(cards: Seq<Card>)
    requires
        cards.len() == 2,
    ensures
        score_of(cards) <= 21,
{
    reveal_with_fuel(base_total, 3);
    reveal_with_fuel(value_count, 3);
    assert(cards.drop_last().drop_last().len() == 0);
    assert(base_total(cards) == cards[0].value.points() + cards[1].value.points());
    assert(ace_count(cards) == value_count(cards, Value::Ace));
}

/// In a well-formed context the deck is not empty while the player is not
/// bust and the dealer holds 40 cards or fewer: a hit always finds a card.
pub proof fn lemma_deck_lasts_for_player(ctx: GameContext)
    requires
        ctx.wf(),
        score_of(ctx.player@) <= 21,
        ctx.dealer@.len() <= 40,
    ensures
        ctx.deck@.len() > 0,
{
    lemma_conservation(ctx);
    lemma_hands_are_short(ctx);
}

/// In a well-formed context the deck lasts for the dealer while the player
/// holds 42 cards or fewer: ten distinct cards score 17 or more, so the
/// dealer stops before the deck runs out.
pub proof fn lemma_deck_lasts_for_dealer(ctx: GameContext)
    requires
        ctx.wf(),
        ctx.player@.len() <= 42,
    ensures
        dealer_settles(ctx.deck@, ctx.dealer@),
{
    broadcast use vstd::multiset::group_multiset_axioms;

    let deck = ctx.deck@;
    let all = ctx.dealer@ + drawn(deck, deck.len() as int);
    lemma_conservation(ctx);
    assert(drawn(deck, deck.len() as int) =~= deck.reverse());
    deck.lemma_reverse_to_multiset();
    vstd::seq_lib::lemma_multiset_commutative(ctx.dealer@, deck.reverse());
    assert forall|card: Card| all.to_multiset().count(card) <= 1 by {
        assert(ctx.deck@.to_multiset().count(card) + ctx.dealer@.to_multiset().count(card)
            + ctx.player@.to_multiset().count(card) == 1);
    }
    lemma_distinct_cards_score(all);
    assert(score_of(ctx.dealer@ + drawn(deck, deck.len() as int)) >= 17);
}

} // verus!
