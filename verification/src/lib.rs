//! Growth of a stochastic lightning bolt toward conductive points, in
//! integer fixed-point arithmetic, with every rule of the simulation proved.
//!
//! Lengths and coordinates are whole numbers of the host's smallest length
//! unit. Fractions (directions, noise, rates, charge) are in thousandths, and
//! time is in microseconds.
//!
//! The host owns the scene. Each tick it hands the engine the elapsed time,
//! the positions of the conductors, a seeded random generator and a tape of
//! standard normal draws; the engine hands back events: segments grown,
//! charges changed, bolts removed.

pub mod attraction;
pub mod bolt;
pub mod charge;
pub mod config;
pub mod engine;
pub mod error;
pub mod geometry;
pub mod growth;
pub mod laws;
pub mod random;
