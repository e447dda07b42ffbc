//! A verified core for a Game of Life simulator: a bit-packed grid engine
//! with wrap-around or fixed boundaries, a pattern library, and an analyzer
//! that classifies the long-run behaviour of seed patterns.

pub mod analyzer;
pub mod config;
pub mod game;
pub mod text;
pub mod tutorial;
pub mod viewport;
pub mod grid;
pub mod laws;
pub mod patterns;
pub mod persist;
pub mod rng;
