//! Core of a grid-based snake game: a toroidal grid, a snake that grows by
//! eating food, direction input with debouncing and a reversal guard, a
//! random food spawner with a board-full safety net, and a tick-driven
//! controller with a generation guard against stale timer callbacks.
//!
//! Everything here is pure game logic; drawing, keyboard wiring and timers
//! are left to the host, which drives this library through `GameController`.

pub mod controller;
pub mod grid;
pub mod spawn;
pub mod state;
