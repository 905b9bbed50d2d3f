//! The rules of a small arena game: a player stands on a moving platform,
//! enemies circle it and fire, and blanks wipe out the shots they touch.
//! Positions and motion live with the renderer; this crate holds the
//! counters, the lists and the decisions taken on them.
pub mod removal;
pub mod contact;
pub mod state;
mod random;
pub mod game;
