//! A verified checkers (draughts) engine.
//!
//! The library models an 8-by-8 board of optional pieces together with
//! whose turn it is, and proves the rules of play: coordinate parsing
//! and formatting, diagonal steps, capturing hops and hop chains,
//! promotion to double rank, command dispatch, and a text renderer.

pub mod board;
pub mod command;
pub mod coord;
pub mod engine;
pub mod render;
pub mod rules;
