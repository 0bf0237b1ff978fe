//! A chess rules engine: board, move generation, check and pin filtering,
//! castling, en passant, promotion and draw detection, with contracts that
//! Verus proves.
//!
//! `rules` states the game as mathematics; `game`, `movegen`, `engine` and
//! `play` are the engine that is proved to compute it; `laws`, `unique` and
//! `reach` prove what follows from the rules. `notation`, `render`,
//! `players`, `screen` and `web` serve the programs built on the engine.

pub mod pieces;
pub mod moves;
pub mod rules;
pub mod shape;
pub mod game;
pub mod movegen;
pub mod engine;
pub mod play;
pub mod laws;
pub mod unique;
pub mod reach;
pub mod render;
pub mod notation;
pub mod players;
pub mod screen;
pub mod web;
