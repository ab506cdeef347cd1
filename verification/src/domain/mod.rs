//! Games, saves and conflicts.

pub mod conflict;
pub mod game;
pub mod save;
