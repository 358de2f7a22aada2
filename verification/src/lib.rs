//! Two small simulations with verified logic: a country whose population
//! ages, marries, gives birth and dies under a chosen family-planning rule,
//! and Conway's game of life on a bounded board.

pub mod country;
pub mod family;
pub mod life;
pub mod control;
mod rng;
