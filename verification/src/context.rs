//! The game context: the deck and the two hands of a round, which between
//! them hold each of the 52 cards exactly once.

use crate::card::{
    catalog, catalog_card, lemma_catalog_holds_each_card_once, lemma_full_deck, Card,
};
use crate::deck::Deck;
use crate::hand::Hand;
use vstd::multiset::Multiset;
use vstd::prelude::*;
use vstd::seq_lib::lemma_multiset_commutative;

verus! {

/// The state that a round changes: one deck, the dealer's hand and the
/// player's hand. It is made once and used for every round.
#[derive(Debug)]
pub struct GameContext {
    pub deck: Deck,
    pub dealer: Hand,
    pub player: Hand,
}

impl GameContext {
    /// The cards of the deck and of both hands together, each as often as
    /// it occurs.
    pub open spec fn cards(&self) -> Multiset<Card> {
        self.deck@.to_multiset().add(self.dealer@.to_multiset()).add(self.player@.to_multiset())
    }

    /// The context is well formed when its cards are those of the catalog:
    /// none is missing, none occurs twice.
    pub open spec fn wf(&self) -> bool {
        self.cards() == catalog().to_multiset()
    }

    /// A context with a full deck in catalog order and two empty hands.
    pub fn new() -> (ctx: GameContext)
        ensures
            ctx.deck@ == catalog(),
            ctx.dealer@ == Seq::<Card>::empty(),
            ctx.player@ == Seq::<Card>::empty(),
            ctx.wf(),
    {
        let ctx = GameContext { deck: Deck::new(), dealer: Hand::new(), player: Hand::new() };
        proof {
            broadcast use vstd::multiset::group_multiset_axioms;

            Seq::<Card>::empty().to_multiset_ensures();
            assert(Seq::<Card>::empty().to_multiset() =~= Multiset::<Card>::empty());
            assert(ctx.cards() =~= catalog().to_multiset());
        }
        ctx
    }

    /// Whether the context is well formed. A caller that Verus has not
    /// seen can ask this before it hands the context to the round.
    pub fn is_well_formed(&self) -> (whole: bool)
        ensures
            whole == self.wf(),
    {
        let ghost all = self.deck@ + self.dealer@ + self.player@;
        proof {
            lemma_return_keeps_cards(self.deck@, self.dealer@, self.player@);
            lemma_full_deck(all);
        }
        if self.deck.0.len() > 52 || self.dealer.0.len() > 52 || self.player.0.len() > 52 {
            return false;
        }
        if self.deck.0.len() + self.dealer.0.len() + self.player.0.len() != 52 {
            return false;
        }
        let mut seen: Vec<bool> = vec![false; 52];
        if !mark_cards(&self.deck.0, &mut seen, Ghost(Seq::empty())) {
            proof {
                assert(Seq::<Card>::empty() + self.deck@ =~= self.deck@);
                if all.no_duplicates() {
                    assert forall|i: int, j: int|
                        0 <= i < self.deck@.len() && 0 <= j < self.deck@.len() && i != j implies self.deck@[i]
                        != self.deck@[j] by {
                        assert(all[i] == self.deck@[i] && all[j] == self.deck@[j]);
                    }
                }
            }
            return false;
        }
        assert(Seq::<Card>::empty() + self.deck@ =~= self.deck@);
        if !mark_cards(&self.dealer.0, &mut seen, Ghost(self.deck@)) {
            proof {
                let held = self.deck@ + self.dealer@;
                if all.no_duplicates() {
                    assert forall|i: int, j: int|
                        0 <= i < held.len() && 0 <= j < held.len() && i != j implies held[i]
                        != held[j] by {
                        assert(all[i] == held[i] && all[j] == held[j]);
                    }
                }
            }
            return false;
        }
        mark_cards(&self.player.0, &mut seen, Ghost(self.deck@ + self.dealer@))
    }
}

/// Whether the marks tell which cards a sequence holds: the mark at a
/// position of the catalog is set exactly when its card is among them.
spec fn marks(seen: Seq<bool>, cards: Seq<Card>) -> bool {
    &&& seen.len() == 52
    &&& forall|p: int| 0 <= p < 52 ==> seen[p] == cards.contains(#[trigger] catalog_card(p))
}

/// Sets the mark of each of the cards, on top of the marks of the cards
/// that were marked before, and stops at the first card that is marked
/// already. It tells whether it found no such card.
fn mark_cards(cards: &Vec<Card>, seen: &mut Vec<bool>, Ghost(done): Ghost<Seq<Card>>) -> (distinct:
    bool)
    requires
        marks(old(seen)@, done),
        done.no_duplicates(),
    ensures
        final(seen)@.len() == 52,
        distinct == (done + cards@).no_duplicates(),
        distinct ==> marks(final(seen)@, done + cards@),
{
    let mut i: usize = 0;
    assert(done + cards@.take(0) =~= done);
    while i < cards.len()
        invariant
            i <= cards@.len(),
            marks(seen@, done + cards@.take(i as int)),
            (done + cards@.take(i as int)).no_duplicates(),
        decreases cards@.len() - i,
    {
        let card = cards[i];
        let p = card.position() as usize;
        let ghost prefix = done + cards@.take(i as int);
        if seen[p] {
            proof {
                let all = done + cards@;
                assert(prefix.contains(catalog_card(p as int)));
                let k = choose|k: int| 0 <= k < prefix.len() && prefix[k] == card;
                assert(all[k] == card);
                assert(all[done.len() + i] == card);
            }
            return false;
        }
        seen[p] = true;
        i += 1;
        proof {
            let next = done + cards@.take(i as int);
            assert(next =~= prefix.push(card));
            assert forall|q: int| 0 <= q < 52 implies seen@[q] == next.contains(
                #[trigger] catalog_card(q),
            ) by {
                let other = catalog_card(q);
                assert(other.position_spec() == q);
                if q == p {
                    assert(next[next.len() - 1] == card);
                } else {
                    if prefix.contains(other) {
                        let k = choose|k: int| 0 <= k < prefix.len() && prefix[k] == other;
                        assert(next[k] == other);
                    }
                    if next.contains(other) {
                        let k = choose|k: int| 0 <= k < next.len() && next[k] == other;
                        assert(prefix[k] == other);
                    }
                }
            }
        }
    }
    assert(cards@.take(i as int) == cards@);
    true
}

/// In a well-formed context the deck and the hands hold 52 cards in all,
/// and every card lies in exactly one place.
pub proof fn lemma_conservation(ctx: GameContext)
    requires
        ctx.wf(),
    ensures
        ctx.deck@.len() + ctx.dealer@.len() + ctx.player@.len() == 52,
        forall|card: Card|
            ctx.deck@.to_multiset().count(card) + ctx.dealer@.to_multiset().count(card)
                + #[trigger] ctx.player@.to_multiset().count(card) == 1,
{
    broadcast use vstd::multiset::group_multiset_axioms;

    ctx.deck@.to_multiset_ensures();
    ctx.dealer@.to_multiset_ensures();
    ctx.player@.to_multiset_ensures();
    catalog().to_multiset_ensures();
    assert forall|card: Card|
        ctx.deck@.to_multiset().count(card) + ctx.dealer@.to_multiset().count(card)
            + #[trigger] ctx.player@.to_multiset().count(card) == 1 by {
        lemma_catalog_holds_each_card_once(card);
        assert(ctx.cards().count(card) == 1);
    }
}

/// Moving the top card of a deck onto one of two hands keeps the cards
/// that the three hold between them.
pub proof fn lemma_draw_keeps_cards(deck: Seq<Card>, hand: Seq<Card>, other: Seq<Card>)
    requires
        deck.len() > 0,
    ensures
        deck.drop_last().to_multiset().add(hand.push(deck.last()).to_multiset()).add(
            other.to_multiset(),
        ) == deck.to_multiset().add(hand.to_multiset()).add(other.to_multiset()),
        deck.drop_last().to_multiset().add(other.to_multiset()).add(
            hand.push(deck.last()).to_multiset(),
        ) == deck.to_multiset().add(other.to_multiset()).add(hand.to_multiset()),
{
    broadcast use vstd::multiset::group_multiset_axioms;
    broadcast use vstd::seq_lib::group_to_multiset_ensures;

    assert(deck == deck.drop_last().push(deck.last()));
    assert(deck.drop_last().to_multiset().add(hand.push(deck.last()).to_multiset()).add(
        other.to_multiset(),
    ) =~= deck.to_multiset().add(hand.to_multiset()).add(other.to_multiset()));
    assert(deck.drop_last().to_multiset().add(other.to_multiset()).add(
        hand.push(deck.last()).to_multiset(),
    ) =~= deck.to_multiset().add(other.to_multiset()).add(hand.to_multiset()));
}

/// Putting both hands back onto the deck keeps the cards of the three.
pub proof fn lemma_return_keeps_cards(deck: Seq<Card>, dealer: Seq<Card>, player: Seq<Card>)
    ensures
        (deck + dealer + player).to_multiset() == deck.to_multiset().add(
            dealer.to_multiset(),
        ).add(player.to_multiset()),
{
    lemma_multiset_commutative(deck, dealer);
    lemma_multiset_commutative(deck + dealer, player);
}

} // verus!
