//! The round: what each state of the game does to the context, and which
//! state follows.

use crate::bounds::{
    lemma_deck_lasts_for_dealer, lemma_deck_lasts_for_player, lemma_hands_are_short,
    lemma_two_cards_within_21,
};
use crate::card::Card;
use crate::context::{lemma_draw_keeps_cards, lemma_return_keeps_cards, GameContext};
use crate::deck::Deck;
use crate::hand::{score_of, Hand};
use crate::input::{choice_of, declines, declines_replay, Choice};
use vstd::prelude::*;

verus! {

/// The states of the game. A round runs from `Start` to `Continue`; `End`
/// ends the game.
#[derive(Copy, Clone, Debug, PartialEq, Eq, Structural)]
pub enum GameState {
    Start,
    PlayerTurn,
    DealerTurn,
    Scoring,
    Continue,
    End,
}

/// Who wins a round.
#[derive(Copy, Clone, Debug, PartialEq, Eq, Structural)]
pub enum Outcome {
    DealerWins,
    PlayerWins,
}

/// What there is to show to the player after a step of the game.
#[derive(Copy, Clone, Debug, PartialEq, Eq, Structural)]
pub enum Report {
    /// Nothing new.
    Nothing,
    /// Both hands, as they were dealt.
    BothHands,
    /// The player's hand, which has a new card.
    PlayerHand,
    /// The dealer's hand, as the dealer leaves it.
    DealerHand,
    /// The two scores and the winner of the round.
    Result { dealer: i16, player: i16, outcome: Outcome },
}

/// The winner by the two scores. The dealer wins with 21, against a player
/// who is bust, and with a score within 21 that is no less than the
/// player's. In every other case the player wins.
pub open spec fn outcome_of(dealer: int, player: int) -> Outcome {
    if dealer == 21 || player > 21 || (dealer >= player && dealer <= 21) {
        Outcome::DealerWins
    } else {
        Outcome::PlayerWins
    }
}

/// The state that follows the deal: a dealer who holds 21 ends the round
/// at once, otherwise the player is to act.
pub open spec fn opening_state(dealer: int) -> GameState {
    if dealer == 21 {
        GameState::Scoring
    } else {
        GameState::PlayerTurn
    }
}

/// The top `n` cards of a deck in the order in which they are drawn.
pub open spec fn drawn(deck: Seq<Card>, n: int) -> Seq<Card> {
    Seq::new(n as nat, |i: int| deck[deck.len() - 1 - i])
}

/// Whether the deck lasts for the dealer: some number of its cards brings
/// the dealer's hand to 17 or more.
pub open spec fn dealer_settles(deck: Seq<Card>, dealer: Seq<Card>) -> bool {
    exists|n: int| 0 <= n <= deck.len() && score_of(dealer + #[trigger] drawn(deck, n)) >= 17
}

/// What a deal leaves of a context: the four top cards of the deck have
/// gone to the hands in turn, the first and the third to the player, the
/// second and the fourth to the dealer.
pub open spec fn dealt(before: GameContext, after: GameContext) -> bool {
    let deck = before.deck@;
    let n = deck.len() as int;
    &&& after.deck@ == deck.take(n - 4)
    &&& after.player@ == before.player@.push(deck[n - 1]).push(deck[n - 3])
    &&& after.dealer@ == before.dealer@.push(deck[n - 2]).push(deck[n - 4])
}

/// What the player's choice makes of a context, and the state that
/// follows. A hit moves the top card of the deck to the player's hand and
/// ends the player's turn only if the hand is bust by it. To stand and to
/// quit change nothing and lead on; any other answer changes nothing and
/// leaves the turn with the player.
pub open spec fn player_acted(
    before: GameContext,
    choice: Choice,
    after: GameContext,
    next: GameState,
) -> bool {
    &&& after.dealer@ == before.dealer@
    &&& match choice {
        Choice::Hit => {
            &&& after.deck@ == before.deck@.drop_last()
            &&& after.player@ == before.player@.push(before.deck@.last())
            &&& next == if score_of(after.player@) > 21 {
                GameState::Scoring
            } else {
                GameState::PlayerTurn
            }
        },
        Choice::Stand => {
            &&& after.deck@ == before.deck@
            &&& after.player@ == before.player@
            &&& next == GameState::DealerTurn
        },
        Choice::Quit => {
            &&& after.deck@ == before.deck@
            &&& after.player@ == before.player@
            &&& next == GameState::End
        },
        Choice::Other => {
            &&& after.deck@ == before.deck@
            &&& after.player@ == before.player@
            &&& next == GameState::PlayerTurn
        },
    }
}

/// What the dealer's turn makes of a context. The dealer has drawn the top
/// cards of the deck one by one, as many as it takes to score 17 or more
/// and not one more: with each smaller number of them the hand scored less
/// than 17. The player's hand plays no part in it.
pub open spec fn dealer_played(before: GameContext, after: GameContext) -> bool {
    let n = after.dealer@.len() - before.dealer@.len();
    &&& 0 <= n <= before.deck@.len()
    &&& after.deck@ == before.deck@.take(before.deck@.len() - n)
    &&& after.dealer@ == before.dealer@ + drawn(before.deck@, n)
    &&& after.player@ == before.player@
    &&& score_of(after.dealer@) >= 17
    &&& forall|k: int| 0 <= k < n ==> score_of(before.dealer@ + #[trigger] drawn(before.deck@, k)) < 17
}

/// What holds of the context in each state of a game that is driven by
/// `step` from a new context: the context is well formed; while the
/// player is to act, the player is not bust and the dealer holds the two
/// cards of the deal; and the dealer plays after a player who is not bust.
pub open spec fn round_inv(state: GameState, ctx: GameContext) -> bool {
    &&& ctx.wf()
    &&& state == GameState::PlayerTurn ==> score_of(ctx.player@) <= 21 && ctx.dealer@.len() == 2
    &&& state == GameState::DealerTurn ==> score_of(ctx.player@) <= 21
}

/// Whether the context is left as it was.
pub open spec fn unchanged(before: GameContext, after: GameContext) -> bool {
    &&& after.deck@ == before.deck@
    &&& after.dealer@ == before.dealer@
    &&& after.player@ == before.player@
}

/// What one step makes of a context in a given state, the state that
/// follows, and what there is to show. `Start` deals a new round,
/// `PlayerTurn` acts on the player's answer, `DealerTurn` plays the
/// dealer's hand, `Scoring` scores the hands and names the winner,
/// `Continue` acts on the answer to the question of another round, and
/// `End` stays.
pub open spec fn stepped(
    state: GameState,
    before: GameContext,
    line: Seq<char>,
    after: GameContext,
    next: GameState,
    report: Report,
) -> bool {
    match state {
        GameState::Start => {
            &&& after.deck@.len() == 48
            &&& after.player@.len() == 2
            &&& after.dealer@.len() == 2
            &&& next == opening_state(score_of(after.dealer@))
            &&& report == Report::BothHands
        },
        GameState::PlayerTurn => {
            &&& player_acted(before, choice_of(line), after, next)
            &&& report == if choice_of(line) == Choice::Hit {
                Report::PlayerHand
            } else {
                Report::Nothing
            }
        },
        GameState::DealerTurn => {
            &&& dealer_played(before, after)
            &&& next == GameState::Scoring
            &&& report == Report::DealerHand
        },
        GameState::Scoring => {
            &&& unchanged(before, after)
            &&& next == GameState::Continue
            &&& report matches Report::Result { dealer, player, outcome }
            &&& dealer == score_of(before.dealer@)
            &&& player == score_of(before.player@)
            &&& outcome == outcome_of(score_of(before.dealer@), score_of(before.player@))
        },
        GameState::Continue => {
            &&& unchanged(before, after)
            &&& next == if declines(line) {
                GameState::End
            } else {
                GameState::Start
            }
            &&& report == Report::Nothing
        },
        GameState::End => {
            &&& unchanged(before, after)
            &&& next == GameState::End
            &&& report == Report::Nothing
        },
    }
}

/// Moves the top card of the deck to the hand.
fn deal(deck: &mut Deck, hand: &mut Hand)
    requires
        old(deck)@.len() > 0,
    ensures
        final(deck)@ == old(deck)@.drop_last(),
        final(hand)@ == old(hand)@.push(old(deck)@.last()),
{
    if let Ok(card) = deck.draw() {
        hand.add_card(card);
    }
}

/// Deals the top card of the deck to the player.
fn deal_to_player(ctx: &mut GameContext)
    requires
        old(ctx).deck@.len() > 0,
    ensures
        final(ctx).deck@ == old(ctx).deck@.drop_last(),
        final(ctx).player@ == old(ctx).player@.push(old(ctx).deck@.last()),
        final(ctx).dealer@ == old(ctx).dealer@,
        final(ctx).cards() == old(ctx).cards(),
{
    deal(&mut ctx.deck, &mut ctx.player);
    proof {
        lemma_draw_keeps_cards(old(ctx).deck@, old(ctx).player@, old(ctx).dealer@);
    }
}

/// Deals the top card of the deck to the dealer.
fn deal_to_dealer(ctx: &mut GameContext)
    requires
        old(ctx).deck@.len() > 0,
    ensures
        final(ctx).deck@ == old(ctx).deck@.drop_last(),
        final(ctx).dealer@ == old(ctx).dealer@.push(old(ctx).deck@.last()),
        final(ctx).player@ == old(ctx).player@,
        final(ctx).cards() == old(ctx).cards(),
{
    deal(&mut ctx.deck, &mut ctx.dealer);
    proof {
        lemma_draw_keeps_cards(old(ctx).deck@, old(ctx).dealer@, old(ctx).player@);
    }
}

/// Deals two cards to each hand from the top of the deck, to the player
/// and to the dealer in turn. The cards of the context stay the same, so
/// a well-formed context stays well formed.
pub fn initial_deal(ctx: &mut GameContext)
    requires
        old(ctx).deck@.len() >= 4,
    ensures
        dealt(*old(ctx), *final(ctx)),
        final(ctx).cards() == old(ctx).cards(),
{
    deal_to_player(ctx);
    deal_to_dealer(ctx);
    deal_to_player(ctx);
    deal_to_dealer(ctx);
    proof {
        assert(ctx.deck@ =~= old(ctx).deck@.take(old(ctx).deck@.len() - 4));
    }
}

/// Returns the cards of both hands to the deck and shuffles the deck.
/// Afterwards the hands are empty and the deck holds every card that the
/// context held, in an order that chance decides. Of a well-formed context
/// the deck is then a full deck of 52 cards, whatever the round before
/// left in the hands.
pub fn reshuffle(ctx: &mut GameContext)
    ensures
        final(ctx).dealer@ == Seq::<Card>::empty(),
        final(ctx).player@ == Seq::<Card>::empty(),
        final(ctx).deck@.to_multiset() == old(ctx).cards(),
        final(ctx).cards() == old(ctx).cards(),
        old(ctx).wf() ==> final(ctx).wf() && final(ctx).deck@.len() == 52,
{
    broadcast use vstd::multiset::group_multiset_axioms;

    ctx.deck.return_all(&mut ctx.dealer.0);
    ctx.deck.return_all(&mut ctx.player.0);
    ctx.deck.shuffle();
    proof {
        lemma_return_keeps_cards(old(ctx).deck@, old(ctx).dealer@, old(ctx).player@);
        Seq::<Card>::empty().to_multiset_ensures();
        assert(ctx.cards() =~= old(ctx).cards());
        if old(ctx).wf() {
            crate::context::lemma_conservation(*ctx);
        }
    }
}

/// Starts a round: every card goes back to the deck, the deck is shuffled
/// and two cards are dealt to each hand. The round goes on to the scoring
/// if the dealer holds 21, and to the player's turn if not.
pub fn game_start(ctx: &mut GameContext) -> (next: GameState)
    requires
        old(ctx).wf(),
    ensures
        final(ctx).wf(),
        final(ctx).deck@.len() == 48,
        final(ctx).player@.len() == 2,
        final(ctx).dealer@.len() == 2,
        next == opening_state(score_of(final(ctx).dealer@)),
{
    reshuffle(ctx);
    initial_deal(ctx);
    proof {
        lemma_hands_are_short(*ctx);
    }
    if ctx.dealer.score() == 21 {
        GameState::Scoring
    } else {
        GameState::PlayerTurn
    }
}

/// Acts on the player's choice. A hit needs a card on the deck.
pub fn player_move(ctx: &mut GameContext, choice: Choice) -> (next: GameState)
    requires
        old(ctx).wf(),
        choice == Choice::Hit ==> old(ctx).deck@.len() > 0,
    ensures
        final(ctx).wf(),
        player_acted(*old(ctx), choice, *final(ctx), next),
{
    match choice {
        Choice::Hit => {
            deal_to_player(ctx);
            proof {
                lemma_hands_are_short(*ctx);
            }
            if ctx.player.score() > 21 {
                GameState::Scoring
            } else {
                GameState::PlayerTurn
            }
        },
        Choice::Stand => GameState::DealerTurn,
        Choice::Quit => GameState::End,
        Choice::Other => GameState::PlayerTurn,
    }
}

/// Acts on the player's answer to "hit or stand": reads the choice from
/// the line and acts on it. A hit needs a card on the deck.
pub fn player_turn(ctx: &mut GameContext, line: &str) -> (next: GameState)
    requires
        old(ctx).wf(),
        choice_of(line@) == Choice::Hit ==> old(ctx).deck@.len() > 0,
    ensures
        final(ctx).wf(),
        player_acted(*old(ctx), choice_of(line@), *final(ctx), next),
{
    player_move(ctx, Choice::read(line))
}

/// Plays the dealer's hand: the dealer draws while the hand scores less
/// than 17 and stops as soon as it scores 17 or more. The deck must last
/// until then.
pub fn dealer_turn(ctx: &mut GameContext) -> (next: GameState)
    requires
        old(ctx).wf(),
        dealer_settles(old(ctx).deck@, old(ctx).dealer@),
    ensures
        final(ctx).wf(),
        dealer_played(*old(ctx), *final(ctx)),
        next == GameState::Scoring,
{
    let ghost deck = ctx.deck@;
    let ghost hand = ctx.dealer@;
    let ghost player = ctx.player@;
    let ghost mut n: int = 0;
    proof {
        lemma_hands_are_short(*ctx);
        assert(hand + drawn(deck, 0) =~= hand);
        assert(deck.take(deck.len() - 0) =~= deck);
    }
    while ctx.dealer.score() < 17
        invariant
            ctx.wf(),
            ctx.player@ == player,
            0 <= n <= deck.len(),
            ctx.deck@ == deck.take(deck.len() - n),
            ctx.dealer@ == hand + drawn(deck, n),
            forall|k: int| 0 <= k < n ==> score_of(hand + #[trigger] drawn(deck, k)) < 17,
            dealer_settles(deck, hand),
            score_of(ctx.dealer@) <= i16::MAX,
        decreases deck.len() - n,
    {
        proof {
            let enough = choose|m: int|
                0 <= m <= deck.len() && score_of(hand + #[trigger] drawn(deck, m)) >= 17;
            assert(enough > n) by {
                if enough < n {
                    assert(score_of(hand + drawn(deck, enough)) < 17);
                }
            }
        }
        deal_to_dealer(ctx);
        proof {
            n = n + 1;
            lemma_hands_are_short(*ctx);
            assert(ctx.deck@ =~= deck.take(deck.len() - n));
            assert(ctx.dealer@ =~= hand + drawn(deck, n));
        }
    }
    GameState::Scoring
}

/// The winner by the two scores.
pub fn winner(dealer: i16, player: i16) -> (outcome: Outcome)
    ensures
        outcome == outcome_of(dealer as int, player as int),
{
    if dealer == 21 || player > 21 || (dealer >= player && dealer <= 21) {
        Outcome::DealerWins
    } else {
        Outcome::PlayerWins
    }
}

/// Scores both hands and names the winner of the round.
pub fn scoring(ctx: &GameContext) -> (outcome: Outcome)
    requires
        score_of(ctx.dealer@) <= i16::MAX,
        score_of(ctx.player@) <= i16::MAX,
    ensures
        outcome == outcome_of(score_of(ctx.dealer@), score_of(ctx.player@)),
{
    winner(ctx.dealer.score(), ctx.player.score())
}

/// Acts on the player's answer to "play again": `n` ends the game, any
/// other answer starts a round.
pub fn play_again(line: &str) -> (next: GameState)
    ensures
        next == if declines(line@) {
            GameState::End
        } else {
            GameState::Start
        },
{
    if declines_replay(line) {
        GameState::End
    } else {
        GameState::Start
    }
}

/// Whether a state and a context go together as `round_inv` asks. A
/// caller that Verus has not seen can ask this before it calls `step`.
pub fn check_round(state: GameState, ctx: &GameContext) -> (ready: bool)
    ensures
        ready == round_inv(state, *ctx),
{
    if !ctx.is_well_formed() {
        return false;
    }
    proof {
        lemma_hands_are_short(*ctx);
    }
    match state {
        GameState::PlayerTurn => ctx.player.score() <= 21 && ctx.dealer.0.len() == 2,
        GameState::DealerTurn => ctx.player.score() <= 21,
        _ => true,
    }
}

/// Takes the game one step on: does what the state asks for, and returns
/// the state that follows and what there is to show. A line of input is
/// read in the states `PlayerTurn` and `Continue` only. The deck never
/// runs out.
pub fn step(state: GameState, ctx: &mut GameContext, line: &str) -> (result: (GameState, Report))
    requires
        round_inv(state, *old(ctx)),
    ensures
        round_inv(result.0, *final(ctx)),
        stepped(state, *old(ctx), line@, *final(ctx), result.0, result.1),
{
    match state {
        GameState::Start => {
            let next = game_start(ctx);
            proof {
                lemma_two_cards_within_21(ctx.player@);
            }
            (next, Report::BothHands)
        },
        GameState::PlayerTurn => {
            proof {
                lemma_deck_lasts_for_player(*ctx);
            }
            let choice = Choice::read(line);
            let next = player_move(ctx, choice);
            match choice {
                Choice::Hit => (next, Report::PlayerHand),
                _ => (next, Report::Nothing),
            }
        },
        GameState::DealerTurn => {
            proof {
                lemma_hands_are_short(*ctx);
                lemma_deck_lasts_for_dealer(*ctx);
            }
            let next = dealer_turn(ctx);
            (next, Report::DealerHand)
        },
        GameState::Scoring => {
            proof {
                lemma_hands_are_short(*ctx);
            }
            let dealer = ctx.dealer.score();
            let player = ctx.player.score();
            (GameState::Continue, Report::Result { dealer, player, outcome: winner(dealer, player) })
        },
        GameState::Continue => (play_again(line), Report::Nothing),
        GameState::End => (GameState::End, Report::Nothing),
    }
}

} // verus!
