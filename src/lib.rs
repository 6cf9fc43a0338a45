//! Builds a weighted randomizer template for Guild Wars 2 from a player's
//! character selection and what the game's API reports about those
//! characters: their profession and race, and their progress through each
//! storyline.

use vstd::prelude::*;

pub mod aggregate;
pub mod catalog;
pub mod document;
pub mod endpoints;
pub mod laws;
pub mod options;
pub mod storyline;
pub mod text;

verus! {

} // verus!
