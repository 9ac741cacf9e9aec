//! Rules engine of a Tetra Master style card game: cards and their arrows,
//! the battle formula, the card text encoding and the 4x4 board with its
//! captures and combos.

pub mod arrows;
pub mod card;
pub mod battle;
pub mod board;
pub mod codec;
pub mod deck;
pub mod engine;
pub mod roll;

pub use arrows::{ArrowRelation, Arrows, Direction};
pub use card::{Card, Class, Color, OwnedCard, PlacedCard};
pub use battle::{BattleResult, Explanation};
pub use board::{Board, Space};
pub use codec::TetraMaster;
