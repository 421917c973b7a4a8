//! The fun commands: gifs, coin flips and dice rolls.

pub mod gif;
pub mod random;
