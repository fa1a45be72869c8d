//! Game-level laws that relate several operations, proved from the
//! operations' own contracts.

use vstd::prelude::*;
use crate::card::Card;
use crate::event::Server;
use crate::game::{
    direction_after, lemma_plus_full_decks_trans, next_order, penalty_count, place_post,
    plus_full_decks, turn_after, Game,
};

verus! {

/// Card conservation composes over whole runs of operations: each of
/// join, place and draw promises `plus_full_decks` between its pre- and
/// post-state, so any sequence of them changes the game's card total by
/// a whole number of deck replenishments and by nothing else.
pub proof fn lemma_conservation_composes(g0: Game, g1: Game, g2: Game)
    requires
        plus_full_decks(g0.total_cards(), g1.total_cards()),
        plus_full_decks(g1.total_cards(), g2.total_cards()),
    ensures
        plus_full_decks(g0.total_cards(), g2.total_cards()),
{
    lemma_plus_full_decks_trans(g0.total_cards(), g1.total_cards(), g2.total_cards());
}

/// Turn monotonicity: a placement that neither skips nor deals penalty
/// cards moves the turn pointer exactly one step in the direction that
/// holds after the card's effect; Skip, PlusTwo and PlusFour move it
/// exactly two steps.
pub proof fn lemma_turn_monotonicity(card: Card, turn: int, reversed: bool, n: int)
    ensures
        penalty_count(card) == 0 && !(card matches Card::Skip(_)) ==> turn_after(
            card,
            turn,
            reversed,
            n,
        ) == next_order(turn, direction_after(card, reversed), n),
        penalty_count(card) > 0 || (card matches Card::Skip(_)) ==> turn_after(
            card,
            turn,
            reversed,
            n,
        ) == next_order(
            next_order(turn, direction_after(card, reversed), n),
            direction_after(card, reversed),
            n,
        ),
{
}

/// Playing a Reverse card flips the direction every later turn advance
/// uses.
pub proof fn lemma_reverse_flips_direction(card: Card, reversed: bool)
    requires
        card matches Card::Reverse(_),
    ensures
        direction_after(card, reversed) == !reversed,
{
}

/// Two Reverse placements in a row restore the original direction: if a
/// successful placement of a Reverse card takes `g0` to `g1`, and a
/// second one takes `g1` to `g2`, the direction of `g2` is that of `g0`.
pub proof fn lemma_double_reverse_restores_direction(
    g0: Game,
    g1: Game,
    g2: Game,
    pid1: u128,
    i1: usize,
    col1: Option<crate::card::Color>,
    pid2: u128,
    i2: usize,
    col2: Option<crate::card::Color>,
)
    requires
        place_post(g0, g1, pid1, i1, col1, Ok(Server::CardPlaced)),
        place_post(g1, g2, pid2, i2, col2, Ok(Server::CardPlaced)),
        !g0.finished(),
        g0.has_player(pid1),
        i1 < g0.players@[g0.player_index(pid1)].hand@.len(),
        g0.whos_turn == g0.player_index(pid1),
        g0.players@[g0.player_index(pid1)].hand@[i1 as int] matches Card::Reverse(_),
        g0.players@[g0.player_index(pid1)].hand@[i1 as int].spec_valid_on(g0.table_card()),
        g0.players@[g0.player_index(pid1)].hand@.len() > 1,
        !g1.finished(),
        g1.has_player(pid2),
        i2 < g1.players@[g1.player_index(pid2)].hand@.len(),
        g1.whos_turn == g1.player_index(pid2),
        g1.players@[g1.player_index(pid2)].hand@[i2 as int] matches Card::Reverse(_),
        g1.players@[g1.player_index(pid2)].hand@[i2 as int].spec_valid_on(g1.table_card()),
        g1.players@[g1.player_index(pid2)].hand@.len() > 1,
    ensures
        g1.reversed == !g0.reversed,
        g2.reversed == g0.reversed,
{
}

} // verus!
