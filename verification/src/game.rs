//! The per-game authoritative state machine: the roster, the two piles,
//! the turn pointer, and the transition operations join, start, place,
//! draw, and the discard-recycling algorithm.

use vstd::prelude::*;
use vstd::multiset::Multiset;
use crate::card::{Card, Color};
use crate::deck::{
    Deck, full_deck_count, lemma_normalized_seq_multiset, normalize_all, normalized_count,
    normalized_seq, sort_cards, sorted,
};
use crate::event::{Error, OpaquePlayer, Server};
use crate::rng::{random_below, shuffle_cards};

verus! {

broadcast use vstd::seq_lib::group_to_multiset_ensures, vstd::multiset::group_multiset_axioms, vstd::multiset::group_multiset_properties;

/// One seat at the table: the player's opaque identifier, display name,
/// fixed 0-based seat index, and hand.
#[derive(Debug)]
pub struct Player {
    pub id: u128,
    pub name: String,
    pub order_num: usize,
    pub hand: Deck,
}

/// The order number that follows `turn` among `n` seats, one step in the
/// current direction. Equals `(turn + n - 1) % n` when reversed and
/// `(turn + 1) % n` otherwise, for any `turn` below `n`.
pub open spec fn next_order(turn: int, reversed: bool, n: int) -> int {
    if reversed {
        if turn == 0 {
            n - 1
        } else {
            turn - 1
        }
    } else {
        if turn + 1 == n {
            0
        } else {
            turn + 1
        }
    }
}

/// The cards held across all hands of a roster.
pub open spec fn hands_total(players: Seq<Player>) -> nat
    decreases players.len(),
{
    if players.len() == 0 {
        0nat
    } else {
        players.last().hand@.len() + hands_total(players.drop_last())
    }
}

pub proof fn lemma_hands_total_push(players: Seq<Player>, p: Player)
    ensures
        hands_total(players.push(p)) == hands_total(players) + p.hand@.len(),
{
    assert(players.push(p).drop_last() =~= players);
}

pub proof fn lemma_hands_total_update(players: Seq<Player>, i: int, p: Player)
    requires
        0 <= i < players.len(),
    ensures
        hands_total(players.update(i, p)) + players[i].hand@.len() == hands_total(players)
            + p.hand@.len(),
    decreases players.len(),
{
    let u = players.update(i, p);
    if i == players.len() - 1 {
        assert(u.drop_last() =~= players.drop_last());
    } else {
        lemma_hands_total_update(players.drop_last(), i, p);
        assert(u.drop_last() =~= players.drop_last().update(i, p));
        assert(u.last() == players.last());
    }
}

/// The cards brought in by `k` whole fresh decks.
pub open spec fn fresh_deck_cards(k: nat) -> nat {
    100 * k
}

/// `x` cards can be reached from `base` cards by whole replenishments
/// alone: `x == base + 100 * k` for some count `k` of fresh decks.
pub open spec fn plus_full_decks(base: nat, x: nat) -> bool {
    exists|k: nat| x == base + #[trigger] fresh_deck_cards(k)
}

pub proof fn lemma_plus_full_decks_refl(base: nat)
    ensures
        plus_full_decks(base, base),
{
    assert(base == base + fresh_deck_cards(0));
}

/// One more step that either keeps the count or injects one fresh deck
/// stays within whole replenishments.
pub proof fn lemma_plus_full_decks_step(base: nat, x: nat, y: nat)
    requires
        plus_full_decks(base, x),
        y == x || y == x + 100,
    ensures
        plus_full_decks(base, y),
{
    let k0 = choose|k: nat| x == base + #[trigger] fresh_deck_cards(k);
    if y == x {
        assert(y == base + fresh_deck_cards(k0));
    } else {
        assert(y == base + fresh_deck_cards(k0 + 1));
    }
}

/// Replenishment counts compose across consecutive transitions: this is
/// what extends per-operation card conservation to whole sequences of
/// operations.
pub proof fn lemma_plus_full_decks_trans(base: nat, x: nat, y: nat)
    requires
        plus_full_decks(base, x),
        plus_full_decks(x, y),
    ensures
        plus_full_decks(base, y),
{
    let k0 = choose|k: nat| x == base + #[trigger] fresh_deck_cards(k);
    let k1 = choose|k: nat| y == x + #[trigger] fresh_deck_cards(k);
    assert(y == base + fresh_deck_cards(k0 + k1));
}

/// Cards outside the two piles enter the tally unchanged.
pub proof fn lemma_plus_full_decks_shift(base: nat, x: nat, c: nat)
    requires
        plus_full_decks(base, x),
    ensures
        plus_full_decks((base + c) as nat, (x + c) as nat),
{
    let k0 = choose|k: nat| x == base + #[trigger] fresh_deck_cards(k);
    assert((x + c) as nat == (base + c) + fresh_deck_cards(k0));
}

/// The first empty seat search stays within the roster and, when it
/// lands, names an empty hand.
pub proof fn lemma_first_empty_bounds(g: Game, i: int)
    requires
        0 <= i <= g.players@.len(),
    ensures
        i <= g.first_empty_from(i) <= g.players@.len(),
        g.first_empty_from(i) < g.players@.len() ==> g.players@[g.first_empty_from(i)].hand@.len()
            == 0,
    decreases g.players@.len() - i,
{
    if i < g.players@.len() && g.players@[i].hand@.len() != 0 {
        lemma_first_empty_bounds(g, i + 1);
    }
}

/// An empty hand anywhere in the roster means the game is finished.
pub proof fn lemma_first_empty_le(g: Game, j: int, i: int)
    requires
        0 <= j <= i < g.players@.len(),
        g.players@[i].hand@.len() == 0,
    ensures
        g.first_empty_from(j) <= i,
    decreases i - j,
{
    if j < i && g.players@[j].hand@.len() != 0 {
        lemma_first_empty_le(g, j + 1, i);
    }
}

/// A sequence drawn from two distinct values is exhausted by their two
/// multiset counts.
proof fn lemma_two_value_seq_len(s: Seq<Card>, a: Card, b: Card)
    requires
        a != b,
        forall|k: int| 0 <= k < s.len() ==> s[k] == a || s[k] == b,
    ensures
        s.to_multiset().count(a) + s.to_multiset().count(b) == s.len(),
    decreases s.len(),
{
    if s.len() == 0 {
        assert(!s.contains(a));
        assert(!s.contains(b));
    } else {
        let t = s.drop_last();
        lemma_two_value_seq_len(t, a, b);
        assert(s =~= t.push(s.last()));
    }
}

/// The card actually appended to the discard: a played wild card takes
/// the chosen color, any other card goes as it is.
pub open spec fn resolved_card(card: Card, color: Option<Color>) -> Card {
    match card {
        Card::Wild(_) => Card::Wild(color.unwrap()),
        Card::PlusFour(_) => Card::PlusFour(color.unwrap()),
        _ => card,
    }
}

/// Whether the color submitted with a card is acceptable: a wild card
/// needs one of the four real colors, any other card ignores the choice.
pub open spec fn wild_choice_ok(card: Card, color: Option<Color>) -> bool {
    card.is_wild() ==> (color matches Some(c) && c != Color::Blank)
}

/// How many penalty cards the played card deals to the next seat.
pub open spec fn penalty_count(card: Card) -> nat {
    match card {
        Card::PlusTwo(_) => 2nat,
        Card::PlusFour(_) => 4nat,
        _ => 0nat,
    }
}

/// The direction flag after the played card's effect: only Reverse flips
/// it.
pub open spec fn direction_after(card: Card, reversed: bool) -> bool {
    match card {
        Card::Reverse(_) => !reversed,
        _ => reversed,
    }
}

/// The turn pointer after the played card's effect: one step for a plain,
/// Reverse (in the flipped direction) or Wild card; two steps for Skip,
/// PlusTwo and PlusFour, so the next seat is skipped.
pub open spec fn turn_after(card: Card, turn: int, reversed: bool, n: int) -> int {
    match card {
        Card::Number(_, _) => next_order(turn, reversed, n),
        Card::Skip(_) => next_order(next_order(turn, reversed, n), reversed, n),
        Card::Reverse(_) => next_order(turn, !reversed, n),
        Card::PlusTwo(_) => next_order(next_order(turn, reversed, n), reversed, n),
        Card::Wild(_) => next_order(turn, reversed, n),
        Card::PlusFour(_) => next_order(next_order(turn, reversed, n), reversed, n),
    }
}

/// Every seat keeps its identifier, name and order number; every seat but
/// `a` and `b` keeps its whole state.
pub open spec fn roster_preserved_except(pre: Game, post: Game, a: int, b: int) -> bool {
    &&& post.players@.len() == pre.players@.len()
    &&& forall|k: int|
        0 <= k < pre.players@.len() ==> {
            &&& (#[trigger] post.players@[k]).id == pre.players@[k].id
            &&& post.players@[k].name == pre.players@[k].name
            &&& post.players@[k].order_num == pre.players@[k].order_num
        }
    &&& forall|k: int|
        0 <= k < pre.players@.len() && k != a && k != b ==> #[trigger] post.players@[k]
            == pre.players@[k]
}

/// The hand after one copy of `card` left it and it was re-sorted.
pub open spec fn hand_shrunk_by(pre_hand: Seq<Card>, card: Card, post_hand: Seq<Card>) -> bool {
    &&& post_hand.len() + 1 == pre_hand.len()
    &&& post_hand.to_multiset() == pre_hand.to_multiset().remove(card)
    &&& sorted(post_hand)
}

/// The hand after `k` penalty cards entered it and it was re-sorted: the
/// old cards are all still there.
pub open spec fn hand_grown_by(pre_hand: Seq<Card>, k: nat, post_hand: Seq<Card>) -> bool {
    &&& post_hand.len() == pre_hand.len() + k
    &&& pre_hand.to_multiset().subset_of(post_hand.to_multiset())
    &&& sorted(post_hand)
}

/// Everything `place` promises, case by case: a finished game only
/// reports its winner; an unknown player, an index past the hand, a
/// wrong turn, an illegal card or a missing wild color are each named
/// and leave the game untouched; playing the last card wins; otherwise
/// the hand shrinks by the card, the card's effect lands, the resolved
/// card tops the discard and the turn advances.
pub open spec fn place_post(
    pre: Game,
    post: Game,
    player_id: u128,
    index: usize,
    color: Option<Color>,
    r: Result<Server, Error>,
) -> bool {
    &&& (pre.finished() ==> (r matches Ok(Server::PlayerWon { order_num }) && order_num
        == pre.spec_winner()) && post == pre)
    &&& (!pre.finished() && !pre.has_player(player_id) ==> (r matches Err(
        Error::PlayerDoesNotExist { player_id: q },
    ) && q == player_id) && post == pre)
    &&& (!pre.finished() && pre.has_player(player_id) && index >= pre.players@[pre.player_index(
        player_id,
    )].hand@.len() ==> (r matches Err(Error::CardOutOfRange { index: ix }) && ix == index) && post
        == pre)
    &&& (!pre.finished() && pre.has_player(player_id) && {
        let p = pre.player_index(player_id);
        let hand = pre.players@[p].hand@;
        &&& index < hand.len()
        &&& {
            ||| pre.whos_turn != p
            ||| !hand[index as int].spec_valid_on(pre.table_card())
            ||| (hand.len() > 1 && !wild_choice_ok(hand[index as int], color))
        }
    } ==> (r matches Err(Error::IllegalMove)) && post == pre)
    &&& (!pre.finished() && pre.has_player(player_id) && {
        let p = pre.player_index(player_id);
        let hand = pre.players@[p].hand@;
        &&& index < hand.len()
        &&& pre.whos_turn == p
        &&& hand[index as int].spec_valid_on(pre.table_card())
        &&& hand.len() == 1
    } ==> {
        let p = pre.player_index(player_id);
        &&& (r matches Ok(Server::PlayerWon { order_num }) && order_num == p)
        &&& roster_preserved_except(pre, post, p, p)
        &&& post.players@[p].hand@.len() == 0
        &&& post.pot == pre.pot
        &&& post.discard == pre.discard
        &&& post.whos_turn == pre.whos_turn
        &&& post.reversed == pre.reversed
        &&& post.started == pre.started
        &&& post.creator_token == pre.creator_token
        &&& post.total_cards() + 1 == pre.total_cards()
        &&& post.finished()
    })
    &&& (!pre.finished() && pre.has_player(player_id) && {
        let p = pre.player_index(player_id);
        let hand = pre.players@[p].hand@;
        &&& index < hand.len()
        &&& pre.whos_turn == p
        &&& hand[index as int].spec_valid_on(pre.table_card())
        &&& hand.len() > 1
        &&& wild_choice_ok(hand[index as int], color)
    } ==> {
        let p = pre.player_index(player_id);
        let hand = pre.players@[p].hand@;
        let card = hand[index as int];
        let resolved = resolved_card(card, color);
        let n = pre.players@.len() as int;
        let t = next_order(pre.whos_turn as int, pre.reversed, n);
        &&& (r matches Ok(Server::CardPlaced))
        &&& post.started == pre.started
        &&& post.creator_token == pre.creator_token
        &&& post.reversed == direction_after(card, pre.reversed)
        &&& post.whos_turn == turn_after(card, pre.whos_turn as int, pre.reversed, n)
        &&& post.discard@.len() >= 1
        &&& post.discard@.last() == resolved
        &&& plus_full_decks(pre.total_cards(), post.total_cards())
        &&& (penalty_count(card) == 0 ==> {
            &&& post.discard@ == pre.discard@.push(resolved)
            &&& post.pot == pre.pot
            &&& roster_preserved_except(pre, post, p, p)
            &&& hand_shrunk_by(hand, card, post.players@[p].hand@)
            &&& post.total_cards() == pre.total_cards()
        })
        &&& (penalty_count(card) > 0 ==> {
            &&& roster_preserved_except(pre, post, p, t)
            &&& (t != p ==> hand_shrunk_by(hand, card, post.players@[p].hand@) && hand_grown_by(
                pre.players@[t].hand@,
                penalty_count(card),
                post.players@[t].hand@,
            ))
            &&& (t == p ==> post.players@[p].hand@.len() + 1 == hand.len() + penalty_count(card)
                && sorted(post.players@[p].hand@))
            &&& (pre.pot@.len() >= penalty_count(card) ==> {
                let dealt = pre.pot@.skip(pre.pot@.len() - penalty_count(card));
                &&& post.pot@ == pre.pot@.take(pre.pot@.len() - penalty_count(card))
                &&& post.discard@ == pre.discard@.push(resolved)
                &&& (t != p ==> post.players@[t].hand@.to_multiset()
                    == pre.players@[t].hand@.to_multiset().add(dealt.to_multiset()))
                &&& (t == p ==> post.players@[p].hand@.to_multiset()
                    == pre.players@[p].hand@.to_multiset().remove(card).add(dealt.to_multiset()))
            })
        })
    })
}

/// Everything `draw` promises: a finished game only reports its winner;
/// an unknown player or a wrong turn is named and changes nothing; on
/// the player's turn one card moves from the pot into the re-sorted
/// hand and the turn pointer stays put.
pub open spec fn draw_post(pre: Game, post: Game, player_id: u128, r: Result<
    Server,
    Error,
>) -> bool {
    &&& (pre.finished() ==> (r matches Ok(Server::PlayerWon { order_num }) && order_num
        == pre.spec_winner()) && post == pre)
    &&& (!pre.finished() && !pre.has_player(player_id) ==> (r matches Err(
        Error::PlayerDoesNotExist { player_id: q },
    ) && q == player_id) && post == pre)
    &&& (!pre.finished() && pre.has_player(player_id) && pre.whos_turn != pre.player_index(
        player_id,
    ) ==> (r matches Err(Error::IllegalMove)) && post == pre)
    &&& (!pre.finished() && pre.has_player(player_id) && pre.whos_turn == pre.player_index(
        player_id,
    ) ==> {
        let p = pre.player_index(player_id);
        let hand = pre.players@[p].hand@;
        &&& (r matches Ok(Server::CardDrawn))
        &&& roster_preserved_except(pre, post, p, p)
        &&& hand_grown_by(hand, 1, post.players@[p].hand@)
        &&& post.whos_turn == pre.whos_turn
        &&& post.reversed == pre.reversed
        &&& post.started == pre.started
        &&& post.creator_token == pre.creator_token
        &&& post.table_card() == pre.table_card()
        &&& (pre.pot@.len() == 0 ==> post.discard@ == seq![pre.discard@.last()])
        &&& plus_full_decks(pre.total_cards(), post.total_cards())
        &&& (pre.pot@.len() > 0 ==> {
            &&& post.pot@ == pre.pot@.drop_last()
            &&& post.discard@ == pre.discard@
            &&& post.players@[p].hand@.to_multiset() == hand.to_multiset().insert(pre.pot@.last())
            &&& post.total_cards() == pre.total_cards()
        })
    })
}

/// Everything `update_for` promises: a finished game reports its winner
/// to any caller; an unknown player is named; otherwise the snapshot
/// reproduces the hand, the table card, the direction, the turn pointer,
/// the lifecycle flag, the pot size, and seat, hand size and name of
/// every player.
pub open spec fn update_post(g: Game, player_id: u128, r: Result<Server, Error>) -> bool {
    &&& (g.finished() ==> (r matches Ok(Server::PlayerWon { order_num }) && order_num
        == g.spec_winner()))
    &&& (!g.finished() && !g.has_player(player_id) ==> (r matches Err(Error::PlayerDoesNotExist {
        player_id: q,
    }) && q == player_id))
    &&& (!g.finished() && g.has_player(player_id) ==> (r matches Ok(
        Server::UpdateResponse {
            playing_ret,
            hand_ret,
            discard_ret,
            reversed_ret,
            players_ret,
            whose_turn_ret,
            pot_size_ret,
        },
    ) && {
        let p = g.player_index(player_id);
        &&& playing_ret == g.started
        &&& hand_ret@ == g.players@[p].hand@
        &&& discard_ret == g.table_card()
        &&& reversed_ret == g.reversed
        &&& players_ret@.len() == g.players@.len()
        &&& forall|k: int|
            0 <= k < g.players@.len() ==> {
                &&& (#[trigger] players_ret@[k]).order_num == k
                &&& players_ret@[k].hand_size == g.players@[k].hand@.len()
                &&& players_ret@[k].name == g.players@[k].name
            }
        &&& whose_turn_ret == g.whos_turn
        &&& pot_size_ret == g.pot@.len()
    }))
}

/// Everything `join` promises of the game before and after, the inputs
/// and the result: a seat is added with a sorted seven-card hand exactly
/// when the game is still open and the identifier is new; any rejection
/// leaves the game untouched.
pub open spec fn join_post(pre: Game, post: Game, name: String, id: u128, r: Result<
    usize,
    Error,
>) -> bool {
    &&& (r is Ok <==> (!pre.started && !pre.has_player(id)))
    &&& (r is Err ==> (r matches Err(Error::IllegalMove)) && post == pre)
    &&& (r matches Ok(o) ==> {
        &&& o == pre.players@.len()
        &&& post.players@.len() == pre.players@.len() + 1
        &&& forall|k: int| 0 <= k < pre.players@.len() ==> post.players@[k] == pre.players@[k]
        &&& post.players@.last().id == id
        &&& post.players@.last().name == name
        &&& post.players@.last().order_num == pre.players@.len()
        &&& post.players@.last().hand@.len() == 7
        &&& sorted(post.players@.last().hand@)
        &&& post.started == pre.started
        &&& post.reversed == pre.reversed
        &&& post.whos_turn == pre.whos_turn
        &&& post.creator_token == pre.creator_token
        &&& plus_full_decks(pre.total_cards(), post.total_cards())
        &&& (pre.pot@.len() >= 7 ==> {
            &&& post.pot@ == pre.pot@.take(pre.pot@.len() - 7)
            &&& post.discard@ == pre.discard@
            &&& post.total_cards() == pre.total_cards()
            &&& post.pot@.to_multiset().add(post.players@.last().hand@.to_multiset())
                == pre.pot@.to_multiset()
        })
    })
}

/// Everything `start` promises: it succeeds exactly for the creator
/// capability on an open, non-empty game, and then only sets the started
/// flag and a turn pointer within the roster; any rejection names its
/// reason and leaves the game untouched.
pub open spec fn start_post(pre: Game, post: Game, token: u128, r: Result<Server, Error>) -> bool {
    &&& (r is Ok <==> (token == pre.creator_token && !pre.started && pre.players@.len() > 0))
    &&& (token != pre.creator_token ==> (r matches Err(Error::InvalidGMToken { bad_token })
        && bad_token == token) && post == pre)
    &&& (token == pre.creator_token && (pre.started || pre.players@.len() == 0) ==> (r matches Err(
        Error::IllegalMove,
    )) && post == pre)
    &&& (r is Ok ==> {
        &&& (r matches Ok(Server::GameStarted))
        &&& post.started == true
        &&& post.whos_turn < post.players@.len()
        &&& post.pot == pre.pot
        &&& post.discard == pre.discard
        &&& post.players == pre.players
        &&& post.reversed == pre.reversed
        &&& post.creator_token == pre.creator_token
    })
}

/// One game: the draw pile (pot), the discard pile whose last element is
/// the table card, the roster indexed by seat, the creator capability,
/// the turn pointer, the direction flag, and the lifecycle flag.
#[derive(Debug)]
pub struct Game {
    pub pot: Deck,
    pub discard: Deck,
    pub creator_token: u128,
    pub reversed: bool,
    pub players: Vec<Player>,
    pub started: bool,
    pub whos_turn: usize,
}

impl Game {
    /// Seat indices and order numbers agree.
    pub open spec fn players_indexed(self) -> bool {
        forall|i: int|
            0 <= i < self.players@.len() ==> (#[trigger] self.players@[i]).order_num == i
    }

    /// No two seats share a player identifier.
    pub open spec fn ids_unique(self) -> bool {
        forall|i: int, j: int|
            #![trigger self.players@[i].id, self.players@[j].id]
            0 <= i < j < self.players@.len() ==> self.players@[i].id != self.players@[j].id
    }

    /// Every hand is kept in display order.
    pub open spec fn hands_sorted(self) -> bool {
        forall|i: int| 0 <= i < self.players@.len() ==> sorted((#[trigger] self.players@[i]).hand@)
    }

    /// The structural invariant every operation preserves: the discard is
    /// never empty, seats are numbered 0 upward in roster order under
    /// distinct identifiers, hands stay sorted, and the turn pointer names
    /// a seat whenever one exists.
    pub open spec fn wf(self) -> bool {
        &&& self.discard@.len() >= 1
        &&& self.players_indexed()
        &&& self.ids_unique()
        &&& self.hands_sorted()
        &&& (self.players@.len() > 0 ==> self.whos_turn < self.players@.len())
        &&& (self.players@.len() == 0 ==> self.whos_turn == 0)
    }

    /// Every card of the game, wherever it lies.
    pub open spec fn total_cards(self) -> nat {
        self.pot@.len() + self.discard@.len() + hands_total(self.players@)
    }

    /// The active table card that the next play must match.
    pub open spec fn table_card(self) -> Card {
        self.discard@.last()
    }

    pub open spec fn has_player(self, id: u128) -> bool {
        exists|i: int| 0 <= i < self.players@.len() && (#[trigger] self.players@[i]).id == id
    }

    /// The seat of the player with identifier `id`; meaningful only when
    /// `has_player(id)` holds (and then unique, by `ids_unique`).
    pub open spec fn player_index(self, id: u128) -> int {
        choose|i: int| 0 <= i < self.players@.len() && (#[trigger] self.players@[i]).id == id
    }

    /// The first seat whose hand is empty, or the roster length if none is.
    pub open spec fn first_empty_from(self, i: int) -> int
        decreases self.players@.len() - i when 0 <= i <= self.players@.len()
    {
        if i >= self.players@.len() {
            self.players@.len() as int
        } else if self.players@[i].hand@.len() == 0 {
            i
        } else {
            self.first_empty_from(i + 1)
        }
    }

    /// A game is finished as soon as some hand is empty.
    pub open spec fn finished(self) -> bool {
        self.first_empty_from(0) < self.players@.len()
    }

    /// The winning order number of a finished game.
    pub open spec fn spec_winner(self) -> int {
        self.first_empty_from(0)
    }

    fn find_winner_from(&self, i: usize) -> (r: Option<usize>)
        requires
            i <= self.players@.len(),
        ensures
            r is Some <==> self.first_empty_from(i as int) < self.players@.len(),
            r matches Some(w) ==> w == self.first_empty_from(i as int),
        decreases self.players@.len() - i,
    {
        if i >= self.players.len() {
            None
        } else if self.players[i].hand.0.len() == 0 {
            Some(i)
        } else {
            self.find_winner_from(i + 1)
        }
    }

    /// The first empty-handed seat, if the game is finished.
    pub fn winner(&self) -> (r: Option<usize>)
        ensures
            self.finished() <==> r is Some,
            r matches Some(w) ==> w == self.spec_winner(),
    {
        proof {
            lemma_first_empty_bounds(*self, 0);
        }
        self.find_winner_from(0)
    }

    /// The seat holding `id`, by linear scan of the roster.
    fn lookup_player(&self, id: u128) -> (r: Option<usize>)
        requires
            self.ids_unique(),
        ensures
            match r {
                Some(i) => self.has_player(id) && i == self.player_index(id) && i
                    < self.players@.len() && self.players@[i as int].id == id,
                None => !self.has_player(id),
            },
    {
        let mut i: usize = 0;
        while i < self.players.len()
            invariant
                self.ids_unique(),
                i <= self.players@.len(),
                forall|k: int| 0 <= k < i ==> (#[trigger] self.players@[k]).id != id,
            decreases self.players@.len() - i,
        {
            if self.players[i].id == id {
                proof {
                    assert(self.players@[i as int].id == id);
                    assert(self.has_player(id));
                    let j = self.player_index(id);
                    assert(0 <= j < self.players@.len() && self.players@[j].id == id);
                    assert(j == i) by {
                        if j < i {
                            assert(self.players@[j].id != self.players@[i as int].id);
                        } else if i < j {
                            assert(self.players@[i as int].id != self.players@[j].id);
                        }
                    }
                }
                return Some(i);
            }
            i = i + 1;
        }
        None
    }

    /// Moves the turn pointer one step in the current direction.
    pub fn increment_turn(&mut self)
        requires
            old(self).players@.len() > 0,
            old(self).whos_turn < old(self).players@.len(),
        ensures
            final(self).whos_turn == next_order(
                old(self).whos_turn as int,
                old(self).reversed,
                old(self).players@.len() as int,
            ),
            final(self).whos_turn < final(self).players@.len(),
            final(self).pot == old(self).pot,
            final(self).discard == old(self).discard,
            final(self).creator_token == old(self).creator_token,
            final(self).reversed == old(self).reversed,
            final(self).players == old(self).players,
            final(self).started == old(self).started,
    {
        self.whos_turn = self.next_seat();
    }

    /// The pile-recycling draw: pops one card from the pot; when the pot
    /// is exhausted, first rebuilds it from everything under the discard
    /// top (replenishing with a fresh full deck if even that is gone),
    /// shuffled and with played wild cards stripped back to colorless,
    /// leaving the old top as the sole discard card.
    pub fn pop_pot(&mut self) -> (r: Card)
        requires
            old(self).discard@.len() >= 1,
        ensures
            final(self).players == old(self).players,
            final(self).creator_token == old(self).creator_token,
            final(self).reversed == old(self).reversed,
            final(self).started == old(self).started,
            final(self).whos_turn == old(self).whos_turn,
            final(self).discard@.len() >= 1,
            old(self).pot@.len() > 0 ==> {
                &&& r == old(self).pot@.last()
                &&& final(self).pot@ == old(self).pot@.drop_last()
                &&& final(self).discard@ == old(self).discard@
            },
            old(self).pot@.len() == 0 ==> final(self).discard@ == seq![old(self).discard@.last()],
            old(self).pot@.len() == 0 && old(self).discard@.len() > 1 ==> {
                &&& final(self).pot@.push(r).to_multiset() == normalized_seq(
                    old(self).discard@.drop_last(),
                ).to_multiset()
                &&& final(self).pot@.len() + 2 == old(self).discard@.len()
            },
            old(self).pot@.len() == 0 && old(self).discard@.len() == 1 ==> {
                &&& forall|c: Card| #[trigger] final(self).pot@.push(r).to_multiset().count(c)
                    == full_deck_count(c)
                &&& final(self).pot@.len() == 99
            },
    {
        if self.pot.0.len() == 0 {
            let ghost d0 = self.discard@;
            let top = self.discard.0[self.discard.0.len() - 1];
            self.discard.0.pop();
            if self.discard.0.len() == 0 {
                let mut fresh = Deck::new_full();
                self.discard.0.append(&mut fresh.0);
                proof {
                    assert(self.discard@ =~= d0.drop_last() + self.discard@.skip(0));
                }
            }
            let ghost moved = self.discard@;
            self.pot.0.append(&mut self.discard.0);
            proof {
                assert(self.pot@ =~= moved);
            }
            shuffle_cards(&mut self.pot.0);
            let ghost sh = self.pot@;
            normalize_all(&mut self.pot.0);
            proof {
                lemma_normalized_seq_multiset(sh);
                lemma_normalized_seq_multiset(moved);
                assert(self.pot@.to_multiset() =~= normalized_seq(moved).to_multiset()) by {
                    assert forall|c: Card| #[trigger] self.pot@.to_multiset().count(c)
                        == normalized_seq(moved).to_multiset().count(c) by {
                        assert(self.pot@.to_multiset().count(c) == normalized_count(
                            sh.to_multiset(),
                            c,
                        ));
                        assert(normalized_seq(moved).to_multiset().count(c) == normalized_count(
                            moved.to_multiset(),
                            c,
                        ));
                    }
                }
            }
            self.discard.0.push(top);
        }
        let ghost p0 = self.pot@;
        let r = self.pot.0.pop().unwrap();
        proof {
            assert(self.pot@.push(r) =~= p0);
        }
        r
    }

    /// Allocates a new game: a shuffled full deck as the pot, from which
    /// cards are drawn one at a time onto the discard, redrawing while a
    /// wild card lands, so the opening table card is never wild. The
    /// redrawn wild cards stay buried under it.
    pub fn create(creator_token: u128) -> (g: Game)
        ensures
            g.wf(),
            !g.started,
            !g.reversed,
            g.players@.len() == 0,
            g.whos_turn == 0,
            g.creator_token == creator_token,
            !g.discard@.last().is_wild(),
            forall|k: int| 0 <= k < g.discard@.len() - 1 ==> (#[trigger] g.discard@[k]).is_wild(),
            forall|c: Card| #[trigger] g.pot@.to_multiset().count(c)
                + g.discard@.to_multiset().count(c) == full_deck_count(c),
            g.total_cards() == 100,
    {
        let mut pot = Deck::new_full();
        let mut discard: Vec<Card> = Vec::new();
        let mut done = false;
        while !done
            invariant
                pot@.len() + discard@.len() == 100,
                forall|c: Card| #[trigger] pot@.to_multiset().count(c)
                    + discard@.to_multiset().count(c) == full_deck_count(c),
                !done ==> forall|k: int|
                    0 <= k < discard@.len() ==> discard@[k] == Card::Wild(Color::Blank)
                        || discard@[k] == Card::PlusFour(Color::Blank),
                done ==> {
                    &&& discard@.len() >= 1
                    &&& !discard@.last().is_wild()
                    &&& forall|k: int|
                        0 <= k < discard@.len() - 1 ==> (#[trigger] discard@[k]).is_wild()
                },
            decreases pot@.len(),
        {
            proof {
                lemma_two_value_seq_len(
                    discard@,
                    Card::Wild(Color::Blank),
                    Card::PlusFour(Color::Blank),
                );
                assert(pot@.to_multiset().count(Card::Wild(Color::Blank))
                    + discard@.to_multiset().count(Card::Wild(Color::Blank)) == full_deck_count(
                    Card::Wild(Color::Blank),
                ));
                assert(pot@.to_multiset().count(Card::PlusFour(Color::Blank))
                    + discard@.to_multiset().count(Card::PlusFour(Color::Blank))
                    == full_deck_count(Card::PlusFour(Color::Blank)));
                assert(discard@.len() <= 8);
                assert(pot@.len() > 0);
            }
            let ghost potg = pot@;
            let ghost dg = discard@;
            let c = pot.0.pop().unwrap();
            proof {
                assert(pot@.push(c) =~= potg);
                assert(potg.contains(c)) by {
                    assert(potg.last() == c);
                }
            }
            discard.push(c);
            if !(matches!(c, Card::Wild(_)) || matches!(c, Card::PlusFour(_))) {
                done = true;
            }
            proof {
                if !done {
                    assert(potg.to_multiset().count(c) + dg.to_multiset().count(c)
                        == full_deck_count(c));
                    assert(potg.to_multiset().count(c) >= 1);
                    assert(c == Card::Wild(Color::Blank) || c == Card::PlusFour(Color::Blank));
                }
                assert forall|x: Card| #[trigger] pot@.to_multiset().count(x)
                    + discard@.to_multiset().count(x) == full_deck_count(x) by {
                    assert(potg.to_multiset().count(x) + dg.to_multiset().count(x)
                        == full_deck_count(x));
                    assert(potg.to_multiset() == pot@.to_multiset().insert(c));
                    assert(discard@.to_multiset() == dg.to_multiset().insert(c));
                    if x == c {
                        assert(potg.to_multiset().count(x) == pot@.to_multiset().count(x) + 1);
                        assert(discard@.to_multiset().count(x) == dg.to_multiset().count(x) + 1);
                    } else {
                        assert(potg.to_multiset().count(x) == pot@.to_multiset().count(x));
                        assert(discard@.to_multiset().count(x) == dg.to_multiset().count(x));
                    }
                }
            }
        }
        let g = Game {
            pot,
            discard: Deck(discard),
            creator_token,
            reversed: false,
            players: Vec::new(),
            started: false,
            whos_turn: 0,
        };
        proof {
            assert(g.players@ =~= Seq::<Player>::empty());
        }
        g
    }

    /// Seats a new player: deals seven cards off the pot through the
    /// recycling draw, sorts them, and appends the player under the next
    /// order number. Refused once the game has started, and for an
    /// identifier already at the table.
    pub fn join(&mut self, name: String, id: u128) -> (r: Result<usize, Error>)
        requires
            old(self).wf(),
        ensures
            final(self).wf(),
            join_post(*old(self), *final(self), name, id, r),
    {
        if self.started {
            return Err(Error::IllegalMove);
        }
        if let Some(_existing) = self.lookup_player(id) {
            return Err(Error::IllegalMove);
        }
        let ghost pot0 = self.pot@;
        let ghost disc0 = self.discard@;
        let ghost base = pot0.len() + disc0.len();
        let order_num = self.players.len();
        let mut hand: Vec<Card> = Vec::new();
        proof {
            lemma_plus_full_decks_refl(base);
        }
        let mut i: usize = 0;
        while i < 7
            invariant
                i <= 7,
                hand@.len() == i,
                self.players == old(self).players,
                self.creator_token == old(self).creator_token,
                self.started == old(self).started,
                self.reversed == old(self).reversed,
                self.whos_turn == old(self).whos_turn,
                self.discard@.len() >= 1,
                plus_full_decks(base, self.pot@.len() + self.discard@.len() + hand@.len()),
                pot0.len() >= 7 ==> {
                    &&& self.pot@ == pot0.take(pot0.len() - i)
                    &&& self.discard@ == disc0
                    &&& self.pot@.to_multiset().add(hand@.to_multiset()) == pot0.to_multiset()
                },
            decreases 7 - i,
        {
            let ghost pprev = self.pot@;
            let ghost dprev = self.discard@;
            let ghost hprev = hand@;
            let c = self.pop_pot();
            hand.push(c);
            proof {
                lemma_plus_full_decks_step(
                    base,
                    pprev.len() + dprev.len() + hprev.len(),
                    self.pot@.len() + self.discard@.len() + hand@.len(),
                );
                if pot0.len() >= 7 {
                    assert(pprev.len() == pot0.len() - i);
                    assert(self.pot@ =~= pot0.take(pot0.len() - (i + 1)));
                    assert(self.pot@.push(c) =~= pprev);
                    assert(pprev.to_multiset() == self.pot@.to_multiset().insert(c));
                    assert(hand@.to_multiset() == hprev.to_multiset().insert(c));
                    assert forall|x: Card| self.pot@.to_multiset().add(
                        hand@.to_multiset(),
                    ).count(x) == pot0.to_multiset().count(x) by {
                        assert(pprev.to_multiset().add(hprev.to_multiset()).count(x)
                            == pot0.to_multiset().count(x));
                        if x == c {
                            assert(pprev.to_multiset().count(x) == self.pot@.to_multiset().count(x)
                                + 1);
                            assert(hand@.to_multiset().count(x) == hprev.to_multiset().count(x)
                                + 1);
                        } else {
                            assert(pprev.to_multiset().count(x)
                                == self.pot@.to_multiset().count(x));
                            assert(hand@.to_multiset().count(x) == hprev.to_multiset().count(x));
                        }
                    }
                    assert(self.pot@.to_multiset().add(hand@.to_multiset())
                        =~= pot0.to_multiset());
                }
            }
            i = i + 1;
        }
        sort_cards(&mut hand);
        let p = Player { id, name, order_num, hand: Deck(hand) };
        proof {
            lemma_hands_total_push(self.players@, p);
        }
        let ghost players0 = self.players@;
        self.players.push(p);
        proof {
            assert(final(self).wf()) by {
                assert(forall|k: int|
                    0 <= k < players0.len() ==> self.players@[k] == players0[k]);
                assert(self.players@.last() == p);
            }
            lemma_plus_full_decks_shift(
                base,
                self.pot@.len() + self.discard@.len() + 7,
                hands_total(players0),
            );
        }
        Ok(order_num)
    }

    /// Starts the game: only the creator capability may, only once, and
    /// only with at least one player seated. A uniformly random seat
    /// receives the first turn.
    pub fn start(&mut self, token: u128) -> (r: Result<Server, Error>)
        requires
            old(self).wf(),
        ensures
            final(self).wf(),
            start_post(*old(self), *final(self), token, r),
    {
        if token != self.creator_token {
            return Err(Error::InvalidGMToken { bad_token: token });
        }
        if self.started {
            return Err(Error::IllegalMove);
        }
        if self.players.len() == 0 {
            return Err(Error::IllegalMove);
        }
        let first = random_below(self.players.len());
        self.whos_turn = first;
        self.started = true;
        Ok(Server::GameStarted)
    }

    /// The seat one step ahead of the turn pointer in the current
    /// direction: who moves next, and who receives penalty cards.
    fn next_seat(&self) -> (r: usize)
        requires
            self.players@.len() > 0,
            self.whos_turn < self.players@.len(),
        ensures
            r == next_order(
                self.whos_turn as int,
                self.reversed,
                self.players@.len() as int,
            ),
            r < self.players@.len(),
    {
        let n = self.players.len();
        if self.reversed {
            if self.whos_turn == 0 {
                n - 1
            } else {
                self.whos_turn - 1
            }
        } else {
            if self.whos_turn + 1 == n {
                0
            } else {
                self.whos_turn + 1
            }
        }
    }

    /// Validates and applies one card placement: the player must exist,
    /// the index must address a card of the hand, the card must be legal
    /// on the table card and it must be the player's turn. Emptying the
    /// hand wins at once; otherwise the card's effect is applied, the
    /// (color-resolved) card goes on top of the discard, and the turn
    /// advances. A finished game accepts nothing more and only reports
    /// its winner.
    #[verifier::rlimit(100)]
    pub fn place(&mut self, player_id: u128, index: usize, color: Option<Color>) -> (r: Result<
        Server,
        Error,
    >)
        requires
            old(self).wf(),
        ensures
            final(self).wf(),
            place_post(*old(self), *final(self), player_id, index, color, r),
    {
        if let Some(w) = self.winner() {
            return Ok(Server::PlayerWon { order_num: w });
        }
        let pi = match self.lookup_player(player_id) {
            Some(i) => i,
            None => {
                return Err(Error::PlayerDoesNotExist { player_id });
            },
        };
        let hand_len = self.players[pi].hand.0.len();
        if index >= hand_len {
            return Err(Error::CardOutOfRange { index });
        }
        let card = self.players[pi].hand.0[index];
        let table = self.discard.0[self.discard.0.len() - 1];
        if !card.is_valid_on(&table) || self.whos_turn != pi {
            return Err(Error::IllegalMove);
        }
        if hand_len == 1 {
            let ghost players0 = self.players@;
            let ph = &mut self.players[pi];
            ph.hand.0.remove(index);
            proof {
                lemma_hands_total_update(players0, pi as int, self.players@[pi as int]);
                lemma_first_empty_le(*self, 0, pi as int);
            }
            return Ok(Server::PlayerWon { order_num: pi });
        }
        let resolved = match card {
            Card::Wild(_) => match color {
                Some(Color::Red) => Card::Wild(Color::Red),
                Some(Color::Green) => Card::Wild(Color::Green),
                Some(Color::Yellow) => Card::Wild(Color::Yellow),
                Some(Color::Blue) => Card::Wild(Color::Blue),
                _ => {
                    return Err(Error::IllegalMove);
                },
            },
            Card::PlusFour(_) => match color {
                Some(Color::Red) => Card::PlusFour(Color::Red),
                Some(Color::Green) => Card::PlusFour(Color::Green),
                Some(Color::Yellow) => Card::PlusFour(Color::Yellow),
                Some(Color::Blue) => Card::PlusFour(Color::Blue),
                _ => {
                    return Err(Error::IllegalMove);
                },
            },
            _ => card,
        };
        let ghost players0 = self.players@;
        {
            let ph = &mut self.players[pi];
            ph.hand.0.remove(index);
            sort_cards(&mut ph.hand.0);
        }
        proof {
            lemma_hands_total_update(players0, pi as int, self.players@[pi as int]);
        }
        let ghost handsr = hands_total(self.players@);
        match card {
            Card::Number(_, _) => {},
            Card::Skip(_) => {
                self.increment_turn();
            },
            Card::Reverse(_) => {
                self.reversed = !self.reversed;
            },
            Card::Wild(_) => {},
            Card::PlusTwo(_) => {
                let ghost pot0 = self.pot@;
                let ghost s0 = self.pot@.len() + self.discard@.len();
                proof {
                    lemma_plus_full_decks_refl(s0);
                }
                let c1 = self.pop_pot();
                let ghost pB = self.pot@.len() + self.discard@.len();
                proof {
                    lemma_plus_full_decks_step(s0, s0, pB + 1);
                }
                let c2 = self.pop_pot();
                let ghost pC = self.pot@.len() + self.discard@.len();
                proof {
                    lemma_plus_full_decks_step(s0, pB + 1, pC + 2);
                    if pot0.len() >= 2 {
                        assert(self.pot@ =~= pot0.take(pot0.len() - 2));
                        assert(pot0.skip(pot0.len() - 2) =~= Seq::<Card>::empty().push(c2).push(
                            c1,
                        ));
                    }
                }
                let t = self.next_seat();
                let ghost playersa = self.players@;
                {
                    let tp = &mut self.players[t];
                    tp.hand.0.push(c1);
                    tp.hand.0.push(c2);
                    sort_cards(&mut tp.hand.0);
                }
                proof {
                    lemma_hands_total_update(playersa, t as int, self.players@[t as int]);
                    lemma_plus_full_decks_shift(s0, pC + 2, handsr);
                    if pot0.len() >= 2 {
                        let dealt = pot0.skip(pot0.len() - 2);
                        assert forall|x: Card| self.players@[t as int].hand@.to_multiset().count(x)
                            == playersa[t as int].hand@.to_multiset().add(
                            dealt.to_multiset(),
                        ).count(x) by {
                            assert(!Seq::<Card>::empty().contains(x));
                        }
                        assert(self.players@[t as int].hand@.to_multiset()
                            =~= playersa[t as int].hand@.to_multiset().add(dealt.to_multiset()));
                    }
                }
                self.increment_turn();
            },
            Card::PlusFour(_) => {
                let ghost pot0 = self.pot@;
                let ghost s0 = self.pot@.len() + self.discard@.len();
                proof {
                    lemma_plus_full_decks_refl(s0);
                }
                let c1 = self.pop_pot();
                let ghost pB = self.pot@.len() + self.discard@.len();
                proof {
                    lemma_plus_full_decks_step(s0, s0, pB + 1);
                }
                let c2 = self.pop_pot();
                let ghost pC = self.pot@.len() + self.discard@.len();
                proof {
                    lemma_plus_full_decks_step(s0, pB + 1, pC + 2);
                }
                let c3 = self.pop_pot();
                let ghost pD = self.pot@.len() + self.discard@.len();
                proof {
                    lemma_plus_full_decks_step(s0, pC + 2, pD + 3);
                }
                let c4 = self.pop_pot();
                let ghost pE = self.pot@.len() + self.discard@.len();
                proof {
                    lemma_plus_full_decks_step(s0, pD + 3, pE + 4);
                    if pot0.len() >= 4 {
                        assert(self.pot@ =~= pot0.take(pot0.len() - 4));
                        assert(pot0.skip(pot0.len() - 4) =~= Seq::<Card>::empty().push(c4).push(
                            c3,
                        ).push(c2).push(c1));
                    }
                }
                let t = self.next_seat();
                let ghost playersa = self.players@;
                {
                    let tp = &mut self.players[t];
                    tp.hand.0.push(c1);
                    tp.hand.0.push(c2);
                    tp.hand.0.push(c3);
                    tp.hand.0.push(c4);
                    sort_cards(&mut tp.hand.0);
                }
                proof {
                    lemma_hands_total_update(playersa, t as int, self.players@[t as int]);
                    lemma_plus_full_decks_shift(s0, pE + 4, handsr);
                    if pot0.len() >= 4 {
                        let dealt = pot0.skip(pot0.len() - 4);
                        assert forall|x: Card| self.players@[t as int].hand@.to_multiset().count(x)
                            == playersa[t as int].hand@.to_multiset().add(
                            dealt.to_multiset(),
                        ).count(x) by {
                            assert(!Seq::<Card>::empty().contains(x));
                        }
                        assert(self.players@[t as int].hand@.to_multiset()
                            =~= playersa[t as int].hand@.to_multiset().add(dealt.to_multiset()));
                    }
                }
                self.increment_turn();
            },
        }
        self.discard.0.push(resolved);
        self.increment_turn();
        proof {
            lemma_plus_full_decks_refl(old(self).total_cards());
        }
        Ok(Server::CardPlaced)
    }

    /// Draws one card through the recycling draw into the hand of the
    /// player whose turn it is; drawing does not advance the turn. A
    /// finished game accepts nothing more and only reports its winner.
    pub fn draw(&mut self, player_id: u128) -> (r: Result<Server, Error>)
        requires
            old(self).wf(),
        ensures
            final(self).wf(),
            draw_post(*old(self), *final(self), player_id, r),
    {
        if let Some(w) = self.winner() {
            return Ok(Server::PlayerWon { order_num: w });
        }
        let pi = match self.lookup_player(player_id) {
            Some(i) => i,
            None => {
                return Err(Error::PlayerDoesNotExist { player_id });
            },
        };
        if self.whos_turn != pi {
            return Err(Error::IllegalMove);
        }
        let ghost s0 = self.pot@.len() + self.discard@.len();
        proof {
            lemma_plus_full_decks_refl(s0);
        }
        let c = self.pop_pot();
        let ghost pB = self.pot@.len() + self.discard@.len();
        proof {
            lemma_plus_full_decks_step(s0, s0, pB + 1);
        }
        let ghost playersa = self.players@;
        {
            let ph = &mut self.players[pi];
            ph.hand.0.push(c);
            sort_cards(&mut ph.hand.0);
        }
        proof {
            lemma_hands_total_update(playersa, pi as int, self.players@[pi as int]);
            lemma_plus_full_decks_shift(s0, pB + 1, hands_total(playersa));
        }
        Ok(Server::CardDrawn)
    }

    /// The snapshot a polling player receives: the own hand, the table
    /// card, the direction, what may be known of every seat, the turn
    /// pointer, the lifecycle flag and the pot size. A finished game
    /// reports its winner instead, to any caller.
    pub fn update_for(&self, player_id: u128) -> (r: Result<Server, Error>)
        requires
            self.wf(),
        ensures
            update_post(*self, player_id, r),
    {
        if let Some(w) = self.winner() {
            return Ok(Server::PlayerWon { order_num: w });
        }
        let pi = match self.lookup_player(player_id) {
            Some(i) => i,
            None => {
                return Err(Error::PlayerDoesNotExist { player_id });
            },
        };
        let mut roster: Vec<OpaquePlayer> = Vec::new();
        let mut k: usize = 0;
        while k < self.players.len()
            invariant
                self.players_indexed(),
                k <= self.players@.len(),
                roster@.len() == k,
                forall|j: int|
                    0 <= j < k ==> {
                        &&& (#[trigger] roster@[j]).order_num == j
                        &&& roster@[j].hand_size == self.players@[j].hand@.len()
                        &&& roster@[j].name == self.players@[j].name
                    },
            decreases self.players@.len() - k,
        {
            let p = &self.players[k];
            roster.push(
                OpaquePlayer {
                    order_num: p.order_num,
                    hand_size: p.hand.0.len(),
                    name: p.name.clone(),
                },
            );
            k = k + 1;
        }
        let hand = self.players[pi].hand.duplicate();
        let table = self.discard.0[self.discard.0.len() - 1];
        Ok(
            Server::UpdateResponse {
                playing_ret: self.started,
                hand_ret: hand,
                discard_ret: table,
                reversed_ret: self.reversed,
                players_ret: roster,
                whose_turn_ret: self.whos_turn,
                pot_size_ret: self.pot.0.len(),
            },
        )
    }
}

} // verus!
