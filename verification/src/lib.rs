//! Server core for a turn-based, Uno-style multiplayer card game.
//!
//! The crate holds the card taxonomy and its ordering, the full 100-card deck,
//! the per-game authoritative state machine (join, start, place a card,
//! draw a card, and the discard-recycling algorithm), and a keyed registry
//! of games with the request handlers that the transport layer calls.

pub mod card;
pub mod game;
pub mod registry;
pub mod laws;
pub mod event;
mod ids;
pub mod deck;
mod rng;

pub use card::Card;
pub use card::Color;
pub use deck::Deck;
pub use game::Game;
pub use game::Player;
pub use registry::GameRegistry;
