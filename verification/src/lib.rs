//! A tile-grid dungeon: rectangular rooms carved out of solid rock, joined by
//! L-shaped tunnels, with entities that walk on the carved floor.

pub mod draw;
pub mod dungeon;
pub mod game;
pub mod grid;
pub mod layout;
pub mod object;
pub mod path;
pub mod rect;
pub mod tile;
