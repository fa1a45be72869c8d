use oono::card::{Card, Color};
use oono::deck::Deck;
use oono::event::{Error, Server};
use oono::game::{Game, Player};

fn player(id: u128, name: &str, order_num: usize, hand: Vec<Card>) -> Player {
    Player { id, name: name.to_owned(), order_num, hand: Deck(hand) }
}

fn table_game(players: Vec<Player>, pot: Vec<Card>, discard: Vec<Card>, turn: usize) -> Game {
    Game {
        pot: Deck(pot),
        discard: Deck(discard),
        creator_token: 42,
        reversed: false,
        players,
        started: true,
        whos_turn: turn,
    }
}

#[test]
fn pop_pot_takes_the_top_of_the_pot() {
    let mut g = table_game(
        vec![],
        vec![Card::Number(1, Color::Red), Card::Number(2, Color::Red)],
        vec![Card::Number(3, Color::Blue)],
        0,
    );
    let c = g.pop_pot();
    assert_eq!(c, Card::Number(2, Color::Red));
    assert_eq!(g.pot.0, vec![Card::Number(1, Color::Red)]);
    assert_eq!(g.discard.0, vec![Card::Number(3, Color::Blue)]);
}

#[test]
fn pop_pot_recycles_the_discard_under_the_top() {
    let a = Card::Wild(Color::Red);
    let b = Card::Number(5, Color::Blue);
    let c = Card::Number(7, Color::Green);
    let mut g = table_game(vec![], vec![], vec![a, b, c], 0);
    let popped = g.pop_pot();
    assert_eq!(g.discard.0, vec![c]);
    let mut circulating = g.pot.0.clone();
    circulating.push(popped);
    circulating.sort_by_key(|card| (card.color().number(), card.number()));
    // the played wild went back colorless; the number card is untouched
    assert_eq!(circulating, vec![b, Card::Wild(Color::Blank)]);
}

#[test]
fn pop_pot_replenishes_a_bare_table_with_a_fresh_deck() {
    let top = Card::Number(7, Color::Green);
    let mut g = table_game(vec![], vec![], vec![top], 0);
    let popped = g.pop_pot();
    assert_eq!(g.discard.0, vec![top]);
    assert_eq!(g.pot.0.len(), 99);
    let mut circulating = g.pot.0.clone();
    circulating.push(popped);
    assert_eq!(circulating.len(), 100);
    assert_eq!(circulating.iter().filter(|c| **c == Card::Wild(Color::Blank)).count(), 4);
    assert_eq!(circulating.iter().filter(|c| **c == Card::Number(0, Color::Red)).count(), 2);
}

#[test]
fn create_opens_with_a_non_wild_table_card_and_100_cards() {
    let g = Game::create(99);
    assert_eq!(g.creator_token, 99);
    assert!(!g.started);
    assert!(!g.reversed);
    assert_eq!(g.players.len(), 0);
    assert_eq!(g.whos_turn, 0);
    let top = *g.discard.0.last().unwrap();
    assert!(!matches!(top, Card::Wild(_)));
    assert!(!matches!(top, Card::PlusFour(_)));
    assert_eq!(g.pot.0.len() + g.discard.0.len(), 100);
}

#[test]
fn join_deals_seven_sorted_cards_and_the_next_seat() {
    let mut g = Game::create(1);
    let order = g.join("Alice".to_owned(), 1001).unwrap();
    assert_eq!(order, 0);
    assert_eq!(g.players.len(), 1);
    let p = &g.players[0];
    assert_eq!(p.id, 1001);
    assert_eq!(p.name, "Alice");
    assert_eq!(p.order_num, 0);
    assert_eq!(p.hand.0.len(), 7);
    for w in p.hand.0.windows(2) {
        let ka = (w[0].color().number() as u16) * 15 + (w[0].number() as u16);
        let kb = (w[1].color().number() as u16) * 15 + (w[1].number() as u16);
        assert!(ka <= kb);
    }
}

#[test]
fn join_after_start_is_rejected() {
    let mut g = Game::create(1);
    g.join("Alice".to_owned(), 1).unwrap();
    g.start(1).unwrap();
    assert!(matches!(g.join("Bob".to_owned(), 2), Err(Error::IllegalMove)));
    assert_eq!(g.players.len(), 1);
}

#[test]
fn start_needs_the_creator_token_and_a_player() {
    let mut g = Game::create(5);
    assert!(matches!(g.start(6), Err(Error::InvalidGMToken { bad_token: 6 })));
    assert!(matches!(g.start(5), Err(Error::IllegalMove)));
    g.join("Alice".to_owned(), 1).unwrap();
    assert!(matches!(g.start(5), Ok(Server::GameStarted)));
    assert!(g.started);
    assert!(g.whos_turn < g.players.len());
    assert!(matches!(g.start(5), Err(Error::IllegalMove)));
}

#[test]
fn placing_a_number_advances_the_turn_one_step() {
    let mut g = table_game(
        vec![
            player(1, "a", 0, vec![Card::Number(2, Color::Red), Card::Number(5, Color::Green)]),
            player(2, "b", 1, vec![Card::Number(3, Color::Red), Card::Number(6, Color::Green)]),
            player(3, "c", 2, vec![Card::Number(4, Color::Red), Card::Number(7, Color::Green)]),
        ],
        vec![Card::Number(9, Color::Yellow)],
        vec![Card::Number(2, Color::Blue)],
        0,
    );
    let r = g.place(1, 0, None);
    assert!(matches!(r, Ok(Server::CardPlaced)));
    assert_eq!(g.whos_turn, 1);
    assert!(!g.reversed);
    assert_eq!(*g.discard.0.last().unwrap(), Card::Number(2, Color::Red));
    assert_eq!(g.players[0].hand.0, vec![Card::Number(5, Color::Green)]);
}

#[test]
fn placing_a_skip_advances_the_turn_two_steps() {
    let mut g = table_game(
        vec![
            player(1, "a", 0, vec![Card::Number(5, Color::Green), Card::Skip(Color::Blue)]),
            player(2, "b", 1, vec![Card::Number(3, Color::Red)]),
            player(3, "c", 2, vec![Card::Number(4, Color::Red)]),
        ],
        vec![Card::Number(9, Color::Yellow)],
        vec![Card::Number(2, Color::Blue)],
        0,
    );
    assert!(matches!(g.place(1, 1, None), Ok(Server::CardPlaced)));
    assert_eq!(g.whos_turn, 2);
}

#[test]
fn two_reverses_restore_the_direction() {
    let mut g = table_game(
        vec![
            player(1, "a", 0, vec![Card::Number(5, Color::Green), Card::Reverse(Color::Blue)]),
            player(2, "b", 1, vec![Card::Number(3, Color::Red)]),
            player(3, "c", 2, vec![Card::Number(6, Color::Green), Card::Reverse(Color::Blue)]),
        ],
        vec![Card::Number(9, Color::Yellow)],
        vec![Card::Number(2, Color::Blue)],
        0,
    );
    assert!(!g.reversed);
    assert!(matches!(g.place(1, 1, None), Ok(Server::CardPlaced)));
    assert!(g.reversed);
    assert_eq!(g.whos_turn, 2);
    assert!(matches!(g.place(3, 1, None), Ok(Server::CardPlaced)));
    assert!(!g.reversed);
    assert_eq!(g.whos_turn, 0);
}

#[test]
fn plus_two_deals_into_the_next_hand_and_skips_it() {
    let mut g = table_game(
        vec![
            player(1, "a", 0, vec![Card::Number(5, Color::Green), Card::PlusTwo(Color::Blue)]),
            player(2, "b", 1, vec![Card::Number(3, Color::Red)]),
            player(3, "c", 2, vec![Card::Number(4, Color::Red)]),
        ],
        vec![Card::Number(8, Color::Yellow), Card::Number(9, Color::Yellow)],
        vec![Card::Number(2, Color::Blue)],
        0,
    );
    assert!(matches!(g.place(1, 1, None), Ok(Server::CardPlaced)));
    assert_eq!(g.players[1].hand.0.len(), 3);
    assert_eq!(g.whos_turn, 2);
    assert_eq!(g.pot.0.len(), 0);
    // exactly the pot's top two cards arrived, and the discard only grew
    assert!(g.players[1].hand.0.contains(&Card::Number(8, Color::Yellow)));
    assert!(g.players[1].hand.0.contains(&Card::Number(9, Color::Yellow)));
    assert_eq!(
        g.discard.0,
        vec![Card::Number(2, Color::Blue), Card::PlusTwo(Color::Blue)]
    );
}

#[test]
fn plus_four_resolves_green_feeds_the_other_hand_and_skips_it() {
    let mut g = table_game(
        vec![
            player(1, "a", 0, vec![Card::Number(3, Color::Red), Card::PlusFour(Color::Blank)]),
            player(2, "b", 1, vec![Card::Number(4, Color::Red), Card::Number(6, Color::Green)]),
        ],
        vec![
            Card::Number(5, Color::Yellow),
            Card::Number(6, Color::Yellow),
            Card::Number(7, Color::Yellow),
            Card::Number(8, Color::Yellow),
        ],
        vec![Card::Number(2, Color::Blue)],
        0,
    );
    let r = g.place(1, 1, Some(Color::Green));
    assert!(matches!(r, Ok(Server::CardPlaced)));
    assert_eq!(*g.discard.0.last().unwrap(), Card::PlusFour(Color::Green));
    // the other player's hand grew by exactly the four pot cards and their
    // turn is skipped: with two seats the turn comes back to the actor
    assert_eq!(g.players[1].hand.0.len(), 6);
    for n in 5..=8 {
        assert!(g.players[1].hand.0.contains(&Card::Number(n, Color::Yellow)));
    }
    assert_eq!(g.pot.0.len(), 0);
    assert_eq!(g.whos_turn, 0);
    assert!(!g.reversed);
}

#[test]
fn a_wild_card_needs_a_real_color() {
    let mut g = table_game(
        vec![
            player(1, "a", 0, vec![Card::Number(3, Color::Red), Card::Wild(Color::Blank)]),
            player(2, "b", 1, vec![Card::Number(4, Color::Red)]),
        ],
        vec![Card::Number(9, Color::Yellow)],
        vec![Card::Number(2, Color::Blue)],
        0,
    );
    assert!(matches!(g.place(1, 1, None), Err(Error::IllegalMove)));
    assert_eq!(g.players[0].hand.0.len(), 2);
    let r = g.place(1, 1, Some(Color::Yellow));
    assert!(matches!(r, Ok(Server::CardPlaced)));
    assert_eq!(*g.discard.0.last().unwrap(), Card::Wild(Color::Yellow));
}

#[test]
fn emptying_a_hand_wins_and_freezes_the_game() {
    let mut g = table_game(
        vec![
            player(1, "a", 0, vec![Card::Number(2, Color::Blue)]),
            player(2, "b", 1, vec![Card::Number(4, Color::Red), Card::Number(6, Color::Green)]),
        ],
        vec![Card::Number(9, Color::Yellow)],
        vec![Card::Number(2, Color::Red)],
        0,
    );
    let r = g.place(1, 0, None);
    assert!(matches!(r, Ok(Server::PlayerWon { order_num: 0 })));
    assert_eq!(g.players[0].hand.0.len(), 0);
    let pot_before = g.pot.0.clone();
    let discard_before = g.discard.0.clone();
    let turn_before = g.whos_turn;
    // no later place or draw mutates the finished game
    assert!(matches!(g.place(2, 0, None), Ok(Server::PlayerWon { order_num: 0 })));
    assert!(matches!(g.draw(2), Ok(Server::PlayerWon { order_num: 0 })));
    assert_eq!(g.pot.0, pot_before);
    assert_eq!(g.discard.0, discard_before);
    assert_eq!(g.whos_turn, turn_before);
    assert_eq!(g.players[1].hand.0.len(), 2);
}

#[test]
fn place_rejects_bad_indexes_unknown_players_and_wrong_turns() {
    let mut g = table_game(
        vec![
            player(1, "a", 0, vec![Card::Number(2, Color::Blue), Card::Number(5, Color::Green)]),
            player(2, "b", 1, vec![Card::Number(4, Color::Red), Card::Number(6, Color::Green)]),
        ],
        vec![Card::Number(9, Color::Yellow)],
        vec![Card::Number(2, Color::Red)],
        0,
    );
    assert!(matches!(g.place(77, 0, None), Err(Error::PlayerDoesNotExist { player_id: 77 })));
    assert!(matches!(g.place(1, 2, None), Err(Error::CardOutOfRange { index: 2 })));
    assert!(matches!(g.place(2, 0, None), Err(Error::IllegalMove)));
    // an unmatched card is refused even on the right turn
    assert!(matches!(g.place(1, 1, None), Err(Error::IllegalMove)));
    assert_eq!(g.players[0].hand.0.len(), 2);
    assert_eq!(g.players[1].hand.0.len(), 2);
}

#[test]
fn draw_adds_a_card_without_advancing_the_turn() {
    let mut g = table_game(
        vec![
            player(1, "a", 0, vec![Card::Number(2, Color::Blue)]),
            player(2, "b", 1, vec![Card::Number(4, Color::Red)]),
        ],
        vec![Card::Number(9, Color::Yellow)],
        vec![Card::Number(2, Color::Red)],
        1,
    );
    assert!(matches!(g.draw(1), Err(Error::IllegalMove)));
    assert!(matches!(g.draw(9), Err(Error::PlayerDoesNotExist { player_id: 9 })));
    let r = g.draw(2);
    assert!(matches!(r, Ok(Server::CardDrawn)));
    assert_eq!(g.players[1].hand.0.len(), 2);
    assert_eq!(g.whos_turn, 1);
    assert_eq!(g.pot.0.len(), 0);
    assert!(g.players[1].hand.0.contains(&Card::Number(9, Color::Yellow)));
}

#[test]
fn card_conservation_across_operations() {
    let mut g = Game::create(1);
    g.join("Alice".to_owned(), 1).unwrap();
    g.join("Bob".to_owned(), 2).unwrap();
    g.start(1).unwrap();
    let total = |g: &Game| {
        g.pot.0.len()
            + g.discard.0.len()
            + g.players.iter().map(|p| p.hand.0.len()).sum::<usize>()
    };
    assert_eq!(total(&g), 100);
    let mover = g.whos_turn as u128 + 1;
    g.draw(mover).unwrap();
    assert_eq!(total(&g), 100);
}

#[test]
fn update_reports_the_snapshot_or_the_winner() {
    let g = table_game(
        vec![
            player(1, "a", 0, vec![Card::Number(2, Color::Blue)]),
            player(2, "b", 1, vec![Card::Number(4, Color::Red), Card::Number(6, Color::Green)]),
        ],
        vec![Card::Number(9, Color::Yellow)],
        vec![Card::Number(2, Color::Red)],
        1,
    );
    match g.update_for(2) {
        Ok(Server::UpdateResponse {
            playing_ret,
            hand_ret,
            discard_ret,
            reversed_ret,
            players_ret,
            whose_turn_ret,
            pot_size_ret,
        }) => {
            assert!(playing_ret);
            assert_eq!(hand_ret.0.len(), 2);
            assert_eq!(discard_ret, Card::Number(2, Color::Red));
            assert!(!reversed_ret);
            assert_eq!(players_ret.len(), 2);
            assert_eq!(players_ret[0].order_num, 0);
            assert_eq!(players_ret[0].hand_size, 1);
            assert_eq!(players_ret[0].name, "a");
            assert_eq!(players_ret[1].hand_size, 2);
            assert_eq!(whose_turn_ret, 1);
            assert_eq!(pot_size_ret, 1);
        }
        other => panic!("expected a snapshot, got {:?}", other),
    }
    assert!(matches!(g.update_for(77), Err(Error::PlayerDoesNotExist { player_id: 77 })));
    let mut won = g;
    won.players[0].hand.0.clear();
    assert!(matches!(won.update_for(2), Ok(Server::PlayerWon { order_num: 0 })));
}

#[test]
fn a_recycling_draw_keeps_the_table_card() {
    let mut g = table_game(
        vec![
            player(1, "a", 0, vec![Card::Number(2, Color::Blue)]),
            player(2, "b", 1, vec![Card::Number(4, Color::Red)]),
        ],
        vec![],
        vec![Card::Number(5, Color::Green), Card::Number(2, Color::Red)],
        1,
    );
    assert!(matches!(g.draw(2), Ok(Server::CardDrawn)));
    // the pot was empty: the pile under the top was recycled, the top stays
    assert_eq!(g.discard.0, vec![Card::Number(2, Color::Red)]);
    assert_eq!(g.players[1].hand.0.len(), 2);
    assert!(g.players[1].hand.0.contains(&Card::Number(5, Color::Green)));
    assert_eq!(g.whos_turn, 1);
}
