//! Random cards for a hand: levels drawn by weight, so that low levels are
//! common and high ones rare, a class drawn by share, and arrows.

use crate::arrows::Arrows;
use crate::card::{Card, Class};
use crate::roll::{random_chance, random_in_range};
use vstd::prelude::*;

verus! {

/// The weight of a level: how many of a hundred draws give it.
pub open spec fn level_weight(level: int) -> int {
    if level < 3 {
        15
    } else if level < 6 {
        8
    } else if level < 9 {
        5
    } else if level < 12 {
        3
    } else if level < 15 {
        2
    } else {
        1
    }
}

/// The weights of all levels below `level`, added up.
pub open spec fn weight_below(level: int) -> int
    decreases level,
{
    if level <= 0 {
        0
    } else {
        weight_below(level - 1) + level_weight(level - 1)
    }
}

/// The class that a draw from 0 to 100 gives: up to 39 physical, up to 80
/// magical, up to 95 flexible, above that assault.
pub open spec fn spec_class_for_draw(draw: u8) -> Class {
    if draw <= 39 {
        Class::Physical
    } else if draw <= 80 {
        Class::Magical
    } else if draw <= 95 {
        Class::Flexible
    } else {
        Class::Assault
    }
}

/// The weights of the sixteen levels add up to a hundred.
pub proof fn lemma_weights_add_up()
    ensures
        weight_below(16) == 100,
{
    reveal_with_fuel(weight_below, 17);
}

/// The weight of a level.
pub fn weight_of(level: u8) -> (weight: u8)
    ensures
        weight == level_weight(level as int),
{
    if level < 3 {
        15
    } else if level < 6 {
        8
    } else if level < 9 {
        5
    } else if level < 12 {
        3
    } else if level < 15 {
        2
    } else {
        1
    }
}

/// The level that a draw below a hundred falls on: the first draws go to
/// level 0, as many as its weight, the next to level 1, and so on.
pub fn level_for_draw(draw: u8) -> (level: u8)
    requires
        draw < 100,
    ensures
        level <= 15,
        weight_below(level as int) <= draw < weight_below(level + 1),
{
    let mut rest: u8 = draw;
    let mut level: u8 = 0;
    proof {
        lemma_weights_add_up();
    }
    while level < 15 && rest >= weight_of(level)
        invariant
            level <= 15,
            rest == draw - weight_below(level as int),
            weight_below(level as int) <= draw,
            weight_below(16) == 100,
            draw < 100,
        decreases 15 - level,
    {
        rest -= weight_of(level);
        level += 1;
    }
    level
}

/// The class that a draw from 0 to 100 gives.
pub fn class_for_draw(draw: u8) -> (class: Class)
    requires
        draw <= 100,
    ensures
        class == spec_class_for_draw(draw),
{
    if draw <= 39 {
        Class::Physical
    } else if draw <= 80 {
        Class::Magical
    } else if draw <= 95 {
        Class::Flexible
    } else {
        Class::Assault
    }
}

/// One chance in how many the next arrow is drawn with: in two while the
/// card has none, in four once it has one.
pub fn arrow_chance(flags: u8) -> (chance: u32)
    ensures
        chance == (if flags == 0 {
            2u32
        } else {
            4u32
        }),
{
    if flags == 0 {
        2
    } else {
        4
    }
}

/// The mask with bit `i` switched on where the draw says so.
pub fn with_drawn_arrow(flags: u8, i: u8, drawn: bool) -> (after: u8)
    requires
        i < 8,
    ensures
        after == (if drawn {
            flags | (1u8 << i)
        } else {
            flags
        }),
{
    if drawn {
        flags | (1u8 << i)
    } else {
        flags
    }
}

/// Draws a level by weight.
pub fn weighted_level() -> (level: u8)
    ensures
        level <= 15,
{
    let draw: u16 = random_in_range(0, 100);
    level_for_draw(draw as u8)
}

/// Draws the arrows of a card, one direction after the other.
fn random_arrows() -> (arrows: Arrows) {
    let mut flags: u8 = 0;
    let mut i: u8 = 0;
    while i < 8
        invariant
            i <= 8,
        decreases 8 - i,
    {
        let drawn: bool = random_chance(arrow_chance(flags));
        flags = with_drawn_arrow(flags, i, drawn);
        i += 1;
    }
    Arrows::from_flags(flags)
}

/// Draws a card for a hand: each statistic by weight, the class by share,
/// and the arrows.
pub fn random_card() -> (card: Card)
    ensures
        card.well_formed(),
{
    let power = weighted_level();
    let draw: u16 = random_in_range(0, 100);
    let class = class_for_draw(draw as u8);
    let phys_def = weighted_level();
    let mag_def = weighted_level();
    Card::with_arrows(power, class, phys_def, mag_def, random_arrows())
}

} // verus!
