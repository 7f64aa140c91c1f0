//! Particle swarm search over a population of products.
//!
//! Every product is a point in a three-dimensional decision space
//! (restocking price, selling price, market demand). The swarm moves the
//! products towards the most profitable point found so far. All quantities
//! are exact fixed-point decimals, so each step is a function of its inputs
//! and of the random draws handed to it.

pub mod fixed;
pub mod random;
pub mod product;
pub mod config;
pub mod swarm;
