//! A turn-based state engine for a game of uniquely identified pieces
//! ("ships" and "stars") distributed across a bank and a set of locations,
//! mutated by discrete actions that preserve a strict conservation
//! invariant: pieces are never created or destroyed, only relocated.

pub mod model;
pub mod logic;
pub mod lemmas;
pub mod laws;
