//! A falling-sand cellular automaton: a dense grid of packed cells that
//! advances one tick at a time by gravity and diagonal settling.

pub mod chance;
pub mod grid;
pub mod laws;
pub mod model;
pub mod particle;
pub mod pass;
pub mod pixel;
pub mod pixel_grid;
pub mod storage;
