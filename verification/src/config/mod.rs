//! Configuration of the simulation.

pub mod parameters;
