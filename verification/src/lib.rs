//! A single-player Blackjack engine: the cards, the deck, the hands, the
//! scoring of a hand and the round's state machine, each with a contract that
//! Verus proves.

pub mod bounds;
pub mod card;
pub mod context;
pub mod deck;
pub mod hand;
pub mod input;
pub mod laws;
pub mod round;
