//! Predator-prey simulation engine on exact fixed-point arithmetic.
//!
//! Two populations, predators and prey, live in a rectangular world that is
//! either a torus or walled. Each tick every agent perceives the other
//! population within its radius, decides on that perception alone, and the
//! world then commits all decisions at once: captures, births, deaths, and
//! a ceiling on the number of agents.
//!
//! Every quantity of the simulation (coordinates, velocities, energies, time
//! steps) is a [`utils::fixed::Scalar`]: a signed decimal fixed-point number
//! with twelve fractional digits, whose arithmetic saturates and rounds
//! toward zero. All arithmetic is integer arithmetic, so each tick is fully
//! specified up to its random draws, and the engine's invariants are
//! machine-checked: energies of living agents are positive, no agent is
//! faster than its maximum speed, ids are unique, and the ceiling holds after
//! every tick.

pub mod utils;
pub mod config;
pub mod simulation;
pub mod statistics;
