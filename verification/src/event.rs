//! The request/response vocabulary exchanged between the transport layer
//! and the game core, and the error taxonomy every operation reports.

use vstd::prelude::*;
use crate::card::{Card, Color};
use crate::deck::Deck;

verus! {

/// A request as the presentation layer phrases it. Identifiers are the
/// 128-bit values behind the wire-format UUID strings.
#[derive(Debug, Clone)]
pub enum Client {
    UpdateServer { url: String },
    CreateGame,
    JoinGame { game_id: u128, name: String },
    StartGame { game_id: u128, gm_token: u128 },
    RequestUpdate { game_id: u128, player_id: u128 },
    PlaceCard { game_id: u128, player_id: u128, index: usize, color: Option<Color> },
    DrawCard { game_id: u128, player_id: u128 },
}

/// What one player may learn about another: seat, hand size and name,
/// never the cards themselves.
#[derive(Debug, Clone)]
pub struct OpaquePlayer {
    pub order_num: usize,
    pub hand_size: usize,
    pub name: String,
}

/// A successful response from the game core.
#[derive(Debug, Clone)]
pub enum Server {
    GameCreated { game_id_ret: u128, gm_token_ret: u128 },
    GameJoined { game_id_ret: u128, player_id_ret: u128, order_num_ret: usize },
    GameStarted,
    UpdateResponse {
        playing_ret: bool,
        hand_ret: Deck,
        discard_ret: Card,
        reversed_ret: bool,
        players_ret: Vec<OpaquePlayer>,
        whose_turn_ret: usize,
        pot_size_ret: usize,
    },
    CardPlaced,
    CardDrawn,
    PlayerWon { order_num: usize },
}

/// Every way an operation can fail, returned as data and never thrown.
/// The two transport-level variants are produced by the client-side
/// collaborator; the rest come from the core.
#[derive(Debug, Clone)]
pub enum Error {
    CouldNotContactServer { url: String, error: String },
    MalformedResponse { error: String },
    InvalidUuid { id: String, error: String },
    GameDoesNotExist { game_id: u128 },
    PlayerDoesNotExist { player_id: u128 },
    InvalidGMToken { bad_token: u128 },
    CardOutOfRange { index: usize },
    IllegalMove,
}

} // verus!
