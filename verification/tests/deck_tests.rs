use oono::card::{Card, Color};
use oono::deck::{sort_cards, Deck};

fn count_of(deck: &Deck, card: Card) -> usize {
    deck.0.iter().filter(|c| **c == card).count()
}

#[test]
fn new_empty_holds_nothing() {
    assert_eq!(Deck::new_empty().0.len(), 0);
}

#[test]
fn full_deck_has_100_cards() {
    assert_eq!(Deck::new_full().0.len(), 100);
}

#[test]
fn full_deck_has_the_canonical_copies_of_each_card() {
    let d = Deck::new_full();
    for color in [Color::Red, Color::Green, Color::Yellow, Color::Blue] {
        for n in 0..=9 {
            assert_eq!(count_of(&d, Card::Number(n, color)), 2);
        }
        assert_eq!(count_of(&d, Card::Skip(color)), 1);
        assert_eq!(count_of(&d, Card::Reverse(color)), 1);
        assert_eq!(count_of(&d, Card::PlusTwo(color)), 1);
        assert_eq!(count_of(&d, Card::Wild(color)), 0);
        assert_eq!(count_of(&d, Card::PlusFour(color)), 0);
    }
    assert_eq!(count_of(&d, Card::Wild(Color::Blank)), 4);
    assert_eq!(count_of(&d, Card::PlusFour(Color::Blank)), 4);
    for n in 0..=9 {
        assert_eq!(count_of(&d, Card::Number(n, Color::Blank)), 0);
    }
}

#[test]
fn sort_cards_orders_by_color_then_rank() {
    let mut hand = vec![
        Card::Number(9, Color::Blue),
        Card::Wild(Color::Blank),
        Card::Number(0, Color::Red),
        Card::PlusTwo(Color::Red),
    ];
    sort_cards(&mut hand);
    assert_eq!(
        hand,
        vec![
            Card::Number(0, Color::Red),
            Card::PlusTwo(Color::Red),
            Card::Number(9, Color::Blue),
            Card::Wild(Color::Blank),
        ]
    );
}

#[test]
fn sort_cards_keeps_every_card() {
    let mut hand = vec![
        Card::Number(3, Color::Green),
        Card::Number(3, Color::Green),
        Card::Skip(Color::Red),
    ];
    sort_cards(&mut hand);
    assert_eq!(hand.len(), 3);
    assert_eq!(hand.iter().filter(|c| **c == Card::Number(3, Color::Green)).count(), 2);
    assert_eq!(hand.iter().filter(|c| **c == Card::Skip(Color::Red)).count(), 1);
}

#[test]
fn duplicate_copies_a_pile_exactly() {
    let d = Deck(vec![Card::Number(1, Color::Red), Card::Wild(Color::Green)]);
    let copy = d.duplicate();
    assert_eq!(copy.0, d.0);
}
