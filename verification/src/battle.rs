//! The battle between two cards: two levels, two rolled ceilings, two rolled
//! scores, and the comparison of what is left.

use crate::card::Card;
use crate::codec::TetraMaster;
use crate::roll::{range_high, range_low, roll_up_to, stat, stat_range};
use vstd::prelude::*;

verus! {

/// How a battle ended.
#[derive(Clone, Copy, Debug, PartialEq, Eq, Structural)]
pub enum BattleResult {
    Attacker,
    Defender,
    Draw,
}

/// The result that two final scores give: the higher one wins, equal scores
/// are a draw.
pub open spec fn spec_judge(final_attack: u8, final_defense: u8) -> BattleResult {
    if final_attack == final_defense {
        BattleResult::Draw
    } else if final_attack > final_defense {
        BattleResult::Attacker
    } else {
        BattleResult::Defender
    }
}

/// Every value of one battle, in the order in which it arises.
#[derive(Clone, Copy, Debug, PartialEq, Eq, Structural)]
pub struct Explanation {
    /// The level the attacker attacks with.
    pub attacker_level: u8,
    /// The lowest ceiling the attacker can roll.
    pub attacker_low: u8,
    /// The highest ceiling the attacker can roll.
    pub attacker_high: u8,
    /// The attacker's rolled ceiling.
    pub max_attacker_score: u8,
    /// The level the defender defends with.
    pub defender_level: u8,
    /// The lowest ceiling the defender can roll.
    pub defender_low: u8,
    /// The highest ceiling the defender can roll.
    pub defender_high: u8,
    /// The defender's rolled ceiling.
    pub max_defender_score: u8,
    /// The attacker's roll, at most its ceiling.
    pub attacker_score: u8,
    /// The defender's roll, at most its ceiling.
    pub defender_score: u8,
    /// The attacker's ceiling less its roll.
    pub final_attack_score: u8,
    /// The defender's ceiling less its roll.
    pub final_defense_score: u8,
    pub result: BattleResult,
}

impl Explanation {
    /// The battle's values for the four numbers that were rolled.
    pub open spec fn of_rolls(
        attacker: Card,
        defender: Card,
        max_attacker_score: u8,
        max_defender_score: u8,
        attacker_score: u8,
        defender_score: u8,
    ) -> Explanation {
        let attacker_level = attacker.spec_offense_level();
        let defender_level = attacker.spec_defense_level(defender);
        let final_attack_score = (max_attacker_score - attacker_score) as u8;
        let final_defense_score = (max_defender_score - defender_score) as u8;
        Explanation {
            attacker_level,
            attacker_low: range_low(attacker_level) as u8,
            attacker_high: range_high(attacker_level) as u8,
            max_attacker_score,
            defender_level,
            defender_low: range_low(defender_level) as u8,
            defender_high: range_high(defender_level) as u8,
            max_defender_score,
            attacker_score,
            defender_score,
            final_attack_score,
            final_defense_score,
            result: spec_judge(final_attack_score, final_defense_score),
        }
    }

    /// Whether these values are those of a battle of `attacker` against
    /// `defender`: each ceiling lies in the range of its level, each roll is
    /// at most its ceiling, and the rest follows from them.
    pub open spec fn explains(self, attacker: Card, defender: Card) -> bool {
        &&& self.attacker_low <= self.max_attacker_score <= self.attacker_high
        &&& self.defender_low <= self.max_defender_score <= self.defender_high
        &&& self.attacker_score <= self.max_attacker_score
        &&& self.defender_score <= self.max_defender_score
        &&& self == Explanation::of_rolls(
            attacker,
            defender,
            self.max_attacker_score,
            self.max_defender_score,
            self.attacker_score,
            self.defender_score,
        )
    }
}

impl TetraMaster {
    /// Compares the two final scores.
    pub fn judge(final_attack: u8, final_defense: u8) -> (result: BattleResult)
        ensures
            result == spec_judge(final_attack, final_defense),
    {
        if final_attack == final_defense {
            BattleResult::Draw
        } else if final_attack > final_defense {
            BattleResult::Attacker
        } else {
            BattleResult::Defender
        }
    }

    /// Works out a battle from the four numbers that were rolled for it.
    pub fn score_battle(
        attacker: &Card,
        defender: &Card,
        max_attacker_score: u8,
        max_defender_score: u8,
        attacker_score: u8,
        defender_score: u8,
    ) -> (explanation: Explanation)
        requires
            attacker.spec_offense_level() <= 15,
            attacker.spec_defense_level(*defender) <= 15,
            attacker_score <= max_attacker_score,
            defender_score <= max_defender_score,
        ensures
            explanation == Explanation::of_rolls(
                *attacker,
                *defender,
                max_attacker_score,
                max_defender_score,
                attacker_score,
                defender_score,
            ),
    {
        let attacker_level = attacker.offense_level();
        let defender_level = attacker.defense_level(defender);
        let final_attack_score: u8 = max_attacker_score - attacker_score;
        let final_defense_score: u8 = max_defender_score - defender_score;
        let attacker_range = stat_range(attacker_level);
        let defender_range = stat_range(defender_level);
        Explanation {
            attacker_level,
            attacker_low: attacker_range.0,
            attacker_high: attacker_range.1,
            max_attacker_score,
            defender_level,
            defender_low: defender_range.0,
            defender_high: defender_range.1,
            max_defender_score,
            attacker_score,
            defender_score,
            final_attack_score,
            final_defense_score,
            result: Self::judge(final_attack_score, final_defense_score),
        }
    }

    /// Fights one battle and hands back every value of it, for a caller that
    /// wants to narrate the battle. The rolls are drawn in the same order as
    /// in [`TetraMaster::battle`].
    pub fn explain_battle(attacker: &Card, defender: &Card) -> (explanation: Explanation)
        requires
            attacker.spec_offense_level() <= 15,
            attacker.spec_defense_level(*defender) <= 15,
        ensures
            explanation.explains(*attacker, *defender),
    {
        let max_attacker_score = stat(attacker.offense_level()).unwrap();
        let max_defender_score = stat(attacker.defense_level(defender)).unwrap();
        let attacker_score = roll_up_to(max_attacker_score);
        let defender_score = roll_up_to(max_defender_score);
        Self::score_battle(
            attacker,
            defender,
            max_attacker_score,
            max_defender_score,
            attacker_score,
            defender_score,
        )
    }

    /// Fights one battle. The result is that of some rolls that the two cards
    /// allow.
    pub fn battle(attacker: &Card, defender: &Card) -> (result: BattleResult)
        requires
            attacker.spec_offense_level() <= 15,
            attacker.spec_defense_level(*defender) <= 15,
        ensures
            exists|explanation: Explanation| #[trigger]
                explanation.explains(*attacker, *defender) && explanation.result == result,
    {
        let explanation = Self::explain_battle(attacker, defender);
        explanation.result
    }
}

} // verus!
