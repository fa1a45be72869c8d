//! The ordered deck of cards, used both as the draw pile and as the
//! discard pile, and the display sort that keeps hands grouped.

use vstd::prelude::*;
use vstd::multiset::Multiset;
use crate::card::{Card, Color};
use crate::rng::shuffle_cards;

verus! {

broadcast use vstd::seq_lib::group_to_multiset_ensures;

/// How many copies of each card the canonical full deck holds: for each
/// real color, two of each number 0-9 and one Skip, Reverse and PlusTwo;
/// plus four colorless Wild and four colorless PlusFour.
pub open spec fn full_deck_count(c: Card) -> nat {
    match c {
        Card::Number(n, col) => if n < 10 && col != Color::Blank {
            2nat
        } else {
            0nat
        },
        Card::Skip(col) => if col != Color::Blank {
            1nat
        } else {
            0nat
        },
        Card::Reverse(col) => if col != Color::Blank {
            1nat
        } else {
            0nat
        },
        Card::PlusTwo(col) => if col != Color::Blank {
            1nat
        } else {
            0nat
        },
        Card::Wild(col) => if col == Color::Blank {
            4nat
        } else {
            0nat
        },
        Card::PlusFour(col) => if col == Color::Blank {
            4nat
        } else {
            0nat
        },
    }
}

/// A sequence of cards in display order: keys never decrease.
pub open spec fn sorted(s: Seq<Card>) -> bool {
    forall|i: int, j: int| 0 <= i < j < s.len() ==> s[i].spec_key() <= s[j].spec_key()
}

/// The copies of `c` contributed by the number cards `0..n` of color `col`.
spec fn number_contrib(c: Card, col: Color, n: int) -> nat {
    match c {
        Card::Number(k, cc) => if cc == col && k < n {
            2nat
        } else {
            0nat
        },
        _ => 0nat,
    }
}

/// The copies of `c` contributed by one full color block.
spec fn block_contrib(c: Card, col: Color) -> nat {
    number_contrib(c, col, 10) + (if c == Card::Skip(col) {
        1nat
    } else {
        0nat
    }) + (if c == Card::Reverse(col) {
        1nat
    } else {
        0nat
    }) + (if c == Card::PlusTwo(col) {
        1nat
    } else {
        0nat
    })
}

/// Appends the 23 cards of one color: two of each number 0-9, then one
/// Skip, one Reverse and one PlusTwo.
fn push_color_block(arr: &mut Vec<Card>, col: Color)
    ensures
        final(arr)@.len() == old(arr)@.len() + 23,
        forall|c: Card| #[trigger] final(arr)@.to_multiset().count(c) == old(
            arr,
        )@.to_multiset().count(c) + block_contrib(c, col),
{
    let ghost m0 = arr@.to_multiset();
    let ghost len0 = arr@.len();
    let mut n: u8 = 0;
    while n < 10
        invariant
            n <= 10,
            arr@.len() == len0 + 2 * n,
            forall|c: Card| #[trigger] arr@.to_multiset().count(c) == m0.count(c)
                + number_contrib(c, col, n as int),
        decreases 10 - n,
    {
        arr.push(Card::Number(n, col));
        arr.push(Card::Number(n, col));
        n = n + 1;
    }
    arr.push(Card::Skip(col));
    arr.push(Card::Reverse(col));
    arr.push(Card::PlusTwo(col));
}

/// An ordered pile of cards. The same type serves as the face-down draw
/// pile (the pot) and the face-up discard pile, whose last element is the
/// table card.
#[derive(Debug, Clone)]
pub struct Deck(pub Vec<Card>);

impl View for Deck {
    type V = Seq<Card>;

    open spec fn view(&self) -> Seq<Card> {
        self.0@
    }
}

impl Deck {
    pub fn new_empty() -> (r: Self)
        ensures
            r@ == Seq::<Card>::empty(),
    {
        let d = Deck(Vec::new());
        proof {
            assert(d@ =~= Seq::<Card>::empty());
        }
        d
    }

    /// Builds the canonical 100-card deck and shuffles it: the result is
    /// some permutation with exactly the canonical number of copies of
    /// each card.
    pub fn new_full() -> (r: Self)
        ensures
            r@.len() == 100,
            forall|c: Card| #[trigger] r@.to_multiset().count(c) == full_deck_count(c),
    {
        let mut arr: Vec<Card> = Vec::new();
        push_color_block(&mut arr, Color::Red);
        push_color_block(&mut arr, Color::Green);
        push_color_block(&mut arr, Color::Blue);
        push_color_block(&mut arr, Color::Yellow);
        arr.push(Card::PlusFour(Color::Blank));
        arr.push(Card::Wild(Color::Blank));
        arr.push(Card::PlusFour(Color::Blank));
        arr.push(Card::Wild(Color::Blank));
        arr.push(Card::PlusFour(Color::Blank));
        arr.push(Card::Wild(Color::Blank));
        arr.push(Card::PlusFour(Color::Blank));
        arr.push(Card::Wild(Color::Blank));
        proof {
            assert forall|c: Card| #[trigger] arr@.to_multiset().count(c) == full_deck_count(
                c,
            ) by {
                assert(!Seq::<Card>::empty().contains(c));
            }
        }
        shuffle_cards(&mut arr);
        Deck(arr)
    }
}

impl Deck {
    /// An element-for-element copy of the pile.
    pub fn duplicate(&self) -> (r: Deck)
        ensures
            r@ == self@,
    {
        let mut arr: Vec<Card> = Vec::new();
        let mut i: usize = 0;
        while i < self.0.len()
            invariant
                i <= self@.len(),
                arr@ == self@.take(i as int),
            decreases self@.len() - i,
        {
            arr.push(self.0[i]);
            proof {
                assert(arr@ =~= self@.take(i + 1));
            }
            i = i + 1;
        }
        proof {
            assert(self@.take(self@.len() as int) =~= self@);
        }
        Deck(arr)
    }
}

/// A sequence of cards with every wild card stripped back to colorless.
pub open spec fn normalized_seq(s: Seq<Card>) -> Seq<Card> {
    s.map_values(|c: Card| c.normalized())
}

/// How often `c` occurs once every wild card of `m` is stripped back to
/// colorless: colorless wilds collect the copies of every color, colored
/// wilds are gone, and every other card keeps its count.
pub open spec fn normalized_count(m: Multiset<Card>, c: Card) -> nat {
    match c {
        Card::Wild(col) => if col == Color::Blank {
            m.count(Card::Wild(Color::Red)) + m.count(Card::Wild(Color::Green)) + m.count(
                Card::Wild(Color::Yellow),
            ) + m.count(Card::Wild(Color::Blue)) + m.count(Card::Wild(Color::Blank))
        } else {
            0nat
        },
        Card::PlusFour(col) => if col == Color::Blank {
            m.count(Card::PlusFour(Color::Red)) + m.count(Card::PlusFour(Color::Green)) + m.count(
                Card::PlusFour(Color::Yellow),
            ) + m.count(Card::PlusFour(Color::Blue)) + m.count(Card::PlusFour(Color::Blank))
        } else {
            0nat
        },
        _ => m.count(c),
    }
}

/// Normalizing a pile rearranges no card: the count of each card after the
/// strip is determined by the counts before it.
pub proof fn lemma_normalized_seq_multiset(s: Seq<Card>)
    ensures
        forall|c: Card| #[trigger] normalized_seq(s).to_multiset().count(c) == normalized_count(
            s.to_multiset(),
            c,
        ),
    decreases s.len(),
{
    if s.len() == 0 {
        assert forall|c: Card| #[trigger] normalized_seq(s).to_multiset().count(c)
            == normalized_count(s.to_multiset(), c) by {
            assert(!s.contains(c));
            assert(!normalized_seq(s).contains(c));
            assert(forall|x: Card| !s.contains(x));
        }
    } else {
        let t = s.drop_last();
        lemma_normalized_seq_multiset(t);
        assert(s =~= t.push(s.last()));
        assert(normalized_seq(s) =~= normalized_seq(t).push(s.last().normalized()));
    }
}

/// Strips every wild card of the pile back to colorless, in place.
pub(crate) fn normalize_all(v: &mut Vec<Card>)
    ensures
        final(v)@ == normalized_seq(old(v)@),
{
    let mut i: usize = 0;
    while i < v.len()
        invariant
            i <= v@.len(),
            v@.len() == old(v)@.len(),
            forall|k: int| 0 <= k < i ==> v@[k] == old(v)@[k].normalized(),
            forall|k: int| i <= k < v@.len() ==> v@[k] == old(v)@[k],
        decreases v@.len() - i,
    {
        let c = v[i];
        v[i] = c.normalize();
        i = i + 1;
    }
    proof {
        assert(v@ =~= normalized_seq(old(v)@));
    }
}

/// Sorts a hand into display order in place. Only the arrangement changes:
/// the cards themselves are preserved.
pub fn sort_cards(v: &mut Vec<Card>)
    ensures
        sorted(final(v)@),
        final(v)@.to_multiset() == old(v)@.to_multiset(),
        final(v)@.len() == old(v)@.len(),
{
    let mut i: usize = 1;
    while i < v.len()
        invariant
            1 <= i,
            v@.len() == old(v)@.len(),
            v@.to_multiset() == old(v)@.to_multiset(),
            forall|k: int, l: int|
                0 <= k < l < i && l < v@.len() ==> v@[k].spec_key() <= v@[l].spec_key(),
        decreases v@.len() - i,
    {
        let mut j: usize = i;
        while j > 0 && !v[j - 1].le(&v[j])
            invariant
                0 <= j <= i < v@.len(),
                v@.len() == old(v)@.len(),
                v@.to_multiset() == old(v)@.to_multiset(),
                forall|k: int, l: int|
                    0 <= k < l <= i && l != j ==> v@[k].spec_key() <= v@[l].spec_key(),
            decreases j,
        {
            let ghost s0 = v@;
            let a = v[j - 1];
            let b = v[j];
            v[j - 1] = b;
            v[j] = a;
            proof {
                assert(s0.contains(a)) by {
                    assert(s0[j - 1] == a);
                }
                assert(s0.contains(b)) by {
                    assert(s0[j as int] == b);
                }
                assert(v@.to_multiset() =~= s0.to_multiset());
            }
            j = j - 1;
        }
        i = i + 1;
    }
}

} // verus!
