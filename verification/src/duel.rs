//! A two-player duel on a 5x5 terrain board.

pub mod board;
pub mod commands;
pub mod game;
pub mod laws;
