//! Laws of the round that hold whatever the cards are.

use crate::context::GameContext;
use crate::hand::score_of;
use crate::round::{
    dealer_played, drawn, opening_state, outcome_of, unchanged, GameState, Outcome,
};
use vstd::prelude::*;

verus! {

/// A dealer who holds 21 after the deal ends the round at once: the round
/// goes from the deal to the scoring, not to the player, and the dealer
/// wins it whatever the player holds.
pub proof fn lemma_dealer_natural_wins(ctx: GameContext)
    requires
        score_of(ctx.dealer@) == 21,
    ensures
        opening_state(score_of(ctx.dealer@)) == GameState::Scoring,
        outcome_of(score_of(ctx.dealer@), score_of(ctx.player@)) == Outcome::DealerWins,
{
}

/// A player who is bust loses the round, whatever the dealer scores, be
/// it less than the player or more than 21.
pub proof fn lemma_bust_player_loses(dealer: int, player: int)
    requires
        player > 21,
    ensures
        outcome_of(dealer, player) == Outcome::DealerWins,
{
}

/// The dealer stands on 17: a dealer who scores 17 or more draws no card,
/// and one who scores less draws at least one and ends on 17 or more. The
/// player's hand does not enter into it.
pub proof fn lemma_dealer_stands_on_17(before: GameContext, after: GameContext)
    requires
        dealer_played(before, after),
    ensures
        score_of(before.dealer@) >= 17 ==> unchanged(before, after),
        score_of(before.dealer@) < 17 ==> after.dealer@.len() > before.dealer@.len(),
        score_of(after.dealer@) >= 17,
{
    assert(before.dealer@ + drawn(before.deck@, 0) =~= before.dealer@);
    if score_of(before.dealer@) >= 17 {
        assert(after.dealer@.len() == before.dealer@.len());
        assert(after.deck@ =~= before.deck@);
        assert(after.dealer@ =~= before.dealer@);
    }
}

} // verus!
