//! The state engine of a text dungeon: a graph of rooms, a player who walks it,
//! a command interpreter and a turn-based combat machine.
//!
//! Nothing here reads or prints: a front end hands lines of text in and gets
//! lines of text back.
pub mod game;
