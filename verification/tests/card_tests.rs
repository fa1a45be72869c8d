use oono::card::{Card, Color};

fn all_colors() -> Vec<Color> {
    vec![Color::Red, Color::Green, Color::Yellow, Color::Blue, Color::Blank]
}

fn one_of_each_variant(c: Color) -> Vec<Card> {
    vec![
        Card::Number(5, c),
        Card::PlusTwo(c),
        Card::Reverse(c),
        Card::Skip(c),
        Card::Wild(c),
        Card::PlusFour(c),
    ]
}

#[test]
fn color_numbers_follow_the_fixed_ranking() {
    assert_eq!(Color::Red.number(), 0);
    assert_eq!(Color::Green.number(), 1);
    assert_eq!(Color::Yellow.number(), 2);
    assert_eq!(Color::Blue.number(), 3);
    assert_eq!(Color::Blank.number(), 4);
}

#[test]
fn card_numbers_follow_the_fixed_action_ranking() {
    assert_eq!(Card::Number(0, Color::Red).number(), 0);
    assert_eq!(Card::Number(9, Color::Blue).number(), 9);
    assert_eq!(Card::PlusTwo(Color::Red).number(), 10);
    assert_eq!(Card::Reverse(Color::Green).number(), 11);
    assert_eq!(Card::Skip(Color::Yellow).number(), 12);
    assert_eq!(Card::Wild(Color::Blank).number(), 13);
    assert_eq!(Card::PlusFour(Color::Blank).number(), 14);
}

#[test]
fn card_color_reads_any_variant() {
    assert_eq!(Card::Number(3, Color::Green).color(), Color::Green);
    assert_eq!(Card::PlusTwo(Color::Blue).color(), Color::Blue);
    assert_eq!(Card::Wild(Color::Blank).color(), Color::Blank);
}

#[test]
fn legality_matches_color_or_rank_or_wild_for_all_combinations() {
    for cand_color in all_colors() {
        for table_color in all_colors() {
            for cand in one_of_each_variant(cand_color) {
                for table in one_of_each_variant(table_color) {
                    let expected = cand.color() == table.color()
                        || cand.number() == table.number()
                        || matches!(cand, Card::Wild(_))
                        || matches!(cand, Card::PlusFour(_));
                    assert_eq!(cand.is_valid_on(&table), expected);
                }
            }
        }
    }
}

#[test]
fn legality_exact_cases() {
    let t = Card::Number(5, Color::Blue);
    assert!(Card::Number(5, Color::Red).is_valid_on(&t));
    assert!(Card::Number(2, Color::Blue).is_valid_on(&t));
    assert!(!Card::Number(3, Color::Red).is_valid_on(&t));
    assert!(Card::Wild(Color::Blank).is_valid_on(&t));
    assert!(Card::PlusFour(Color::Blank).is_valid_on(&t));
    assert!(Card::Skip(Color::Red).is_valid_on(&Card::Skip(Color::Blue)));
    assert!(!Card::Skip(Color::Red).is_valid_on(&Card::Reverse(Color::Blue)));
    assert!(Card::PlusTwo(Color::Red).is_valid_on(&Card::Number(9, Color::Red)));
}

#[test]
fn normalize_strips_only_wild_colors() {
    assert_eq!(Card::Wild(Color::Red).normalize(), Card::Wild(Color::Blank));
    assert_eq!(Card::PlusFour(Color::Green).normalize(), Card::PlusFour(Color::Blank));
    assert_eq!(Card::Wild(Color::Blank).normalize(), Card::Wild(Color::Blank));
    assert_eq!(Card::Number(4, Color::Red).normalize(), Card::Number(4, Color::Red));
    assert_eq!(Card::Skip(Color::Blue).normalize(), Card::Skip(Color::Blue));
}

#[test]
fn display_order_groups_by_color_then_rank() {
    assert!(Card::Number(0, Color::Red).le(&Card::Number(9, Color::Red)));
    assert!(Card::Number(9, Color::Red).le(&Card::Number(0, Color::Green)));
    assert!(Card::PlusTwo(Color::Red).le(&Card::Reverse(Color::Red)));
    assert!(!Card::Wild(Color::Blank).le(&Card::Number(0, Color::Red)));
    assert!(Card::Number(5, Color::Blue).le(&Card::Number(5, Color::Blue)));
}
