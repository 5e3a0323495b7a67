//! Agents and the world that steps them.

pub mod agent;
pub mod predator;
pub mod prey;
pub mod perception;
pub mod tick;
pub mod soundness;
pub mod world;
