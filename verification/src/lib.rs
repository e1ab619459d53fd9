//! Deterministic simulation core of a falling-block puzzle game: a fixed
//! 10 x 22 board, the seven tetrimino shapes with Super-Rotation-System wall
//! kicks, two pseudo-random piece generators, and the tick-driven round state
//! machine (gravity, lock, line-clear animation, spawn delay, scoring and
//! levelling, input auto-repeat).
//!
//! Rendering, audio and input polling live outside this crate; the core only
//! consumes discrete per-tick action flags and exposes read-only state.

pub mod actor;
pub mod board;
pub mod conf;
pub mod event;
pub mod game;
pub mod mint;
pub mod random;
pub mod settings;
pub mod state;
pub mod text;
pub mod tetrimino;
pub mod texture_packer;
pub mod vec;
