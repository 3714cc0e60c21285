//! Core of a UCI-compatible chess engine: evaluation scalar, alpha-beta
//! search window, lock-free transposition cache, static exchange evaluation,
//! staged move picker, NNUE evaluation, and the principal-variation search
//! driver. Chess rules (move generation, legality, hashing) come from the
//! `cozy_chess` crate through a small trusted layer.

pub mod eval;
pub mod window;
pub mod formulas;
pub mod params;
pub mod chess;
pub mod board;
pub mod helpers;
pub mod history;
pub mod cache;
pub mod see;
pub mod oracle;
pub mod nnue;
pub mod position;
pub mod picker;
pub mod search;
pub mod engine;
pub mod datagen;
pub mod options;
pub mod hce;
