//! Cards: their class and statistics, their owner and their place.

use crate::arrows::Arrows;
use vstd::prelude::*;

verus! {

/// The class of a card decides which statistics meet in a battle.
#[derive(Clone, Copy, Debug, PartialEq, Eq, Structural)]
pub enum Class {
    Physical,
    Magical,
    Flexible,
    Assault,
}

impl Class {
    /// The upper-case letter that stands for the class in a card's text.
    pub open spec fn letter(self) -> char {
        match self {
            Class::Physical => 'P',
            Class::Magical => 'M',
            Class::Flexible => 'X',
            Class::Assault => 'A',
        }
    }

    pub fn as_char(&self) -> (c: char)
        ensures
            c == self.letter(),
    {
        match *self {
            Class::Physical => 'P',
            Class::Magical => 'M',
            Class::Flexible => 'X',
            Class::Assault => 'A',
        }
    }
}

/// The side that controls a card.
#[derive(Clone, Copy, Debug, PartialEq, Eq, Structural)]
pub enum Color {
    Blue,
    Red,
}

/// The larger of two levels.
pub open spec fn larger(a: u8, b: u8) -> u8 {
    if a >= b {
        a
    } else {
        b
    }
}

/// The smaller of two levels.
pub open spec fn smaller(a: u8, b: u8) -> u8 {
    if a <= b {
        a
    } else {
        b
    }
}

/// The statistics, class and arrows of one card.
#[derive(Clone, Copy, Debug, PartialEq, Eq, Structural)]
pub struct Card {
    pub power: u8,
    pub class: Class,
    pub physical_defense: u8,
    pub magical_defense: u8,
    pub arrows: Arrows,
}

impl Card {
    /// Every statistic of a card is a level: a value of four bits.
    pub open spec fn well_formed(self) -> bool {
        self.power <= 15 && self.physical_defense <= 15 && self.magical_defense <= 15
    }

    /// The level a card attacks with: its power, or for an assault card its
    /// highest statistic.
    pub open spec fn spec_offense_level(self) -> u8 {
        match self.class {
            Class::Physical | Class::Magical | Class::Flexible => self.power,
            Class::Assault => larger(
                larger(self.physical_defense, self.magical_defense),
                self.power,
            ),
        }
    }

    /// The level that `other` defends with when this card attacks it. The
    /// attacker's class picks the statistic of the defender.
    pub open spec fn spec_defense_level(self, other: Card) -> u8 {
        match self.class {
            Class::Physical => other.physical_defense,
            Class::Magical => other.magical_defense,
            Class::Flexible => smaller(other.physical_defense, other.magical_defense),
            Class::Assault => smaller(
                smaller(other.physical_defense, other.magical_defense),
                other.power,
            ),
        }
    }

    /// Both levels of a battle between well-formed cards are levels again.
    pub proof fn lemma_levels_in_range(self, other: Card)
        requires
            self.well_formed(),
            other.well_formed(),
        ensures
            self.spec_offense_level() <= 15,
            self.spec_defense_level(other) <= 15,
    {
    }

    pub fn new(power: u8, class: Class, phys_def: u8, mag_def: u8) -> (card: Self)
        ensures
            card == (Card {
                power,
                class,
                physical_defense: phys_def,
                magical_defense: mag_def,
                arrows: Arrows { flags: 0 },
            }),
    {
        Card {
            power,
            class,
            physical_defense: phys_def,
            magical_defense: mag_def,
            arrows: Arrows::default(),
        }
    }

    pub fn with_arrows(power: u8, class: Class, phys_def: u8, mag_def: u8, arrows: Arrows) -> (card:
        Self)
        ensures
            card == (Card {
                power,
                class,
                physical_defense: phys_def,
                magical_defense: mag_def,
                arrows,
            }),
    {
        let mut card = Card::new(power, class, phys_def, mag_def);
        card.arrows = arrows;
        card
    }

    /// Gets this card's offense level.
    pub fn offense_level(&self) -> (level: u8)
        ensures
            level == self.spec_offense_level(),
    {
        match self.class {
            Class::Physical | Class::Magical | Class::Flexible => self.power,
            Class::Assault => {
                let defense: u8 = if self.physical_defense >= self.magical_defense {
                    self.physical_defense
                } else {
                    self.magical_defense
                };
                if defense >= self.power {
                    defense
                } else {
                    self.power
                }
            },
        }
    }

    /// Gets the defense level this card will attack against, given the
    /// defending card.
    pub fn defense_level(&self, card: &Card) -> (level: u8)
        ensures
            level == self.spec_defense_level(*card),
    {
        let defense: u8 = if card.physical_defense <= card.magical_defense {
            card.physical_defense
        } else {
            card.magical_defense
        };
        match self.class {
            Class::Physical => card.physical_defense,
            Class::Magical => card.magical_defense,
            Class::Flexible => defense,
            Class::Assault => if defense <= card.power {
                defense
            } else {
                card.power
            },
        }
    }
}

/// A card together with the side that controls it. Only the colour ever
/// changes.
#[derive(Clone, Copy, Debug, PartialEq, Eq, Structural)]
pub struct OwnedCard {
    pub card: Card,
    pub color: Color,
}

impl std::ops::Deref for OwnedCard {
    type Target = Card;

    fn deref(&self) -> (card: &Card)
        ensures
            *card == self.card,
    {
        &self.card
    }
}

impl OwnedCard {
    pub fn new(card: Card, color: Color) -> (owned: Self)
        ensures
            owned == (OwnedCard { card, color }),
    {
        OwnedCard { card, color }
    }

    pub fn blue(card: Card) -> (owned: Self)
        ensures
            owned == (OwnedCard { card, color: Color::Blue }),
    {
        Self::new(card, Color::Blue)
    }

    pub fn red(card: Card) -> (owned: Self)
        ensures
            owned == (OwnedCard { card, color: Color::Red }),
    {
        Self::new(card, Color::Red)
    }

    pub fn into_inner(self) -> (card: Card)
        ensures
            card == self.card,
    {
        self.card
    }

    /// This card under the control of `color`.
    pub open spec fn recolored(self, color: Color) -> OwnedCard {
        OwnedCard { card: self.card, color }
    }
}

/// An owned card on a board, with its row and column, both counted from 1.
#[derive(Clone, Copy, Debug, PartialEq, Eq, Structural)]
pub struct PlacedCard {
    pub card: OwnedCard,
    pub row: usize,
    pub column: usize,
}

impl std::ops::Deref for PlacedCard {
    type Target = OwnedCard;

    fn deref(&self) -> (card: &OwnedCard)
        ensures
            *card == self.card,
    {
        &self.card
    }
}

impl PlacedCard {
    pub fn new(card: OwnedCard, row: usize, column: usize) -> (placed: Self)
        ensures
            placed == (PlacedCard { card, row, column }),
    {
        PlacedCard { card, row, column }
    }

    /// This card in its place, under the control of `color`.
    pub open spec fn recolored(self, color: Color) -> PlacedCard {
        PlacedCard { card: self.card.recolored(color), row: self.row, column: self.column }
    }
}

} // verus!
