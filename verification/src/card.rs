//! The card taxonomy: colors, card variants, display ordering, and the
//! legality rule that decides which card may be placed on which.

use vstd::prelude::*;

verus! {

/// A card color. `Blank` marks a wild card whose color has not been chosen yet.
#[derive(Clone, Copy, Debug, PartialEq, Eq, Structural)]
pub enum Color {
    Red,
    Green,
    Yellow,
    Blue,
    Blank,
}

impl Color {
    /// The fixed numeric rank of a color, used only to sort hands for display.
    pub open spec fn spec_number(self) -> int {
        match self {
            Color::Red => 0,
            Color::Green => 1,
            Color::Yellow => 2,
            Color::Blue => 3,
            Color::Blank => 4,
        }
    }

    pub fn number(self) -> (r: u8)
        ensures
            r == self.spec_number(),
    {
        match self {
            Color::Red => 0,
            Color::Green => 1,
            Color::Yellow => 2,
            Color::Blue => 3,
            Color::Blank => 4,
        }
    }
}

/// A card. Wild and PlusFour carry `Color::Blank` until a player resolves
/// a color choice when playing them.
#[derive(Clone, Copy, Debug, PartialEq, Eq, Structural)]
pub enum Card {
    Number(u8, Color),
    PlusTwo(Color),
    Reverse(Color),
    Skip(Color),
    Wild(Color),
    PlusFour(Color),
}

impl Card {
    /// The color carried by any variant.
    pub open spec fn spec_color(self) -> Color {
        match self {
            Card::Number(_, c) => c,
            Card::PlusTwo(c) => c,
            Card::Reverse(c) => c,
            Card::Skip(c) => c,
            Card::Wild(c) => c,
            Card::PlusFour(c) => c,
        }
    }

    /// The numeric/action rank: numbers keep their face value, actions rank
    /// 10 to 14 in the fixed order PlusTwo, Reverse, Skip, Wild, PlusFour.
    pub open spec fn spec_number(self) -> int {
        match self {
            Card::Number(n, _) => n as int,
            Card::PlusTwo(_) => 10,
            Card::Reverse(_) => 11,
            Card::Skip(_) => 12,
            Card::Wild(_) => 13,
            Card::PlusFour(_) => 14,
        }
    }

    /// True of the two wild variants, whatever color they carry.
    pub open spec fn is_wild(self) -> bool {
        self matches Card::Wild(_) || self matches Card::PlusFour(_)
    }

    /// The legality rule: a candidate may be placed on the table card when
    /// its color matches, or its rank matches, or it is a wild card.
    pub open spec fn spec_valid_on(self, table: Card) -> bool {
        ||| self.spec_color() == table.spec_color()
        ||| self.spec_number() == table.spec_number()
        ||| self.is_wild()
    }

    /// A wild card stripped back to colorless; every other card unchanged.
    /// Applied when played wild cards re-enter the draw pile.
    pub open spec fn normalized(self) -> Card {
        match self {
            Card::Wild(_) => Card::Wild(Color::Blank),
            Card::PlusFour(_) => Card::PlusFour(Color::Blank),
            _ => self,
        }
    }

    /// The total display order on cards: by color first, then by rank.
    /// Used only to keep hands visually grouped, never for legality.
    pub open spec fn spec_key(self) -> int {
        self.spec_color().spec_number() * 15 + self.spec_number()
    }

    pub fn color(&self) -> (r: Color)
        ensures
            r == self.spec_color(),
    {
        match self {
            Card::Number(_, c) => *c,
            Card::PlusTwo(c) => *c,
            Card::Reverse(c) => *c,
            Card::Skip(c) => *c,
            Card::Wild(c) => *c,
            Card::PlusFour(c) => *c,
        }
    }

    pub fn number(self) -> (r: u8)
        ensures
            r == self.spec_number(),
    {
        match self {
            Card::Number(n, _) => n,
            Card::PlusTwo(_) => 10,
            Card::Reverse(_) => 11,
            Card::Skip(_) => 12,
            Card::Wild(_) => 13,
            Card::PlusFour(_) => 14,
        }
    }

    pub fn is_valid_on(&self, other: &Self) -> (r: bool)
        ensures
            r == self.spec_valid_on(*other),
    {
        self.color() == other.color() || self.number() == other.number()
            || matches!(self, Card::PlusFour(_)) || matches!(self, Card::Wild(_))
    }

    /// Whether this card sorts at or before `other` in the display order.
    pub fn le(&self, other: &Self) -> (r: bool)
        ensures
            r == (self.spec_key() <= other.spec_key()),
    {
        let a: u16 = (self.color().number() as u16) * 15 + (self.number() as u16);
        let b: u16 = (other.color().number() as u16) * 15 + (other.number() as u16);
        a <= b
    }

    /// Strips a wild card back to colorless.
    pub fn normalize(&self) -> (r: Card)
        ensures
            r == self.normalized(),
    {
        match self {
            Card::Wild(_) => Card::Wild(Color::Blank),
            Card::PlusFour(_) => Card::PlusFour(Color::Blank),
            _ => *self,
        }
    }
}

} // verus!
