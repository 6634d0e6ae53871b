//! Core rules engine of a falling-block puzzle game.
//!
//! The library tracks a playing field of frozen cells, a falling piece, a
//! queue of upcoming pieces and a score, and derives legality, locking,
//! line clearing and scoring from player move requests.  Rendering and
//! input binding live outside the library and consume its read surface.

pub mod board;
pub mod draw;
pub mod game;
pub mod piece;
pub mod piece_type_bag_generator;
