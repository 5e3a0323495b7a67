//! Simulation parameters and their validation.

use vstd::prelude::*;
use crate::utils::fixed::{Scalar, SCALE};

verus! {

/// Predator-specific parameters.
#[derive(Debug, Clone, Copy)]
pub struct PredatorParameters {
    pub initial_energy: Scalar,
    pub max_speed: Scalar,
    pub perception_radius: Scalar,
    pub capture_distance: Scalar,
    pub energy_per_tick: Scalar,
    pub energy_gain_from_prey: Scalar,
    pub reproduction_threshold: Scalar,
    pub reproduction_cost: Scalar,
    pub initial_count: u32,
}

impl PredatorParameters {
    /// The default parameters of a predator: energy 100, speed 2, perception
    /// radius 50, capture distance 5, a cost of 0.5 per unit of time, a gain
    /// of 50 from a prey, reproduction at 150 for a cost of 80, and ten
    /// predators to start with.
    pub open spec fn standard() -> PredatorParameters {
        PredatorParameters {
            initial_energy: Scalar { raw: 100_000_000_000_000 },
            max_speed: Scalar { raw: 2_000_000_000_000 },
            perception_radius: Scalar { raw: 50_000_000_000_000 },
            capture_distance: Scalar { raw: 5_000_000_000_000 },
            energy_per_tick: Scalar { raw: 500_000_000_000 },
            energy_gain_from_prey: Scalar { raw: 50_000_000_000_000 },
            reproduction_threshold: Scalar { raw: 150_000_000_000_000 },
            reproduction_cost: Scalar { raw: 80_000_000_000_000 },
            initial_count: 10,
        }
    }
}

impl Default for PredatorParameters {
    fn default() -> (p: Self)
        ensures
            p == PredatorParameters::standard(),
    {
        PredatorParameters {
            initial_energy: Scalar::from_raw(100_000_000_000_000),
            max_speed: Scalar::from_raw(2_000_000_000_000),
            perception_radius: Scalar::from_raw(50_000_000_000_000),
            capture_distance: Scalar::from_raw(5_000_000_000_000),
            energy_per_tick: Scalar::from_raw(500_000_000_000),
            energy_gain_from_prey: Scalar::from_raw(50_000_000_000_000),
            reproduction_threshold: Scalar::from_raw(150_000_000_000_000),
            reproduction_cost: Scalar::from_raw(80_000_000_000_000),
            initial_count: 10,
        }
    }
}

/// Prey-specific parameters.
#[derive(Debug, Clone, Copy)]
pub struct PreyParameters {
    pub initial_energy: Scalar,
    pub max_speed: Scalar,
    pub detection_radius: Scalar,
    pub flee_distance: Scalar,
    pub energy_regeneration: Scalar,
    pub energy_loss_fleeing: Scalar,
    pub reproduction_threshold: Scalar,
    pub reproduction_cost: Scalar,
    pub initial_count: u32,
}

impl PreyParameters {
    /// The default parameters of a prey: energy 80, speed 2.5, detection
    /// radius 60, flee distance 40, a regeneration of 0.3 and a cost of
    /// fleeing of 0.2 per unit of time, reproduction at 120 for a cost of 60,
    /// and fifty prey to start with.
    pub open spec fn standard() -> PreyParameters {
        PreyParameters {
            initial_energy: Scalar { raw: 80_000_000_000_000 },
            max_speed: Scalar { raw: 2_500_000_000_000 },
            detection_radius: Scalar { raw: 60_000_000_000_000 },
            flee_distance: Scalar { raw: 40_000_000_000_000 },
            energy_regeneration: Scalar { raw: 300_000_000_000 },
            energy_loss_fleeing: Scalar { raw: 200_000_000_000 },
            reproduction_threshold: Scalar { raw: 120_000_000_000_000 },
            reproduction_cost: Scalar { raw: 60_000_000_000_000 },
            initial_count: 50,
        }
    }
}

impl Default for PreyParameters {
    fn default() -> (p: Self)
        ensures
            p == PreyParameters::standard(),
    {
        PreyParameters {
            initial_energy: Scalar::from_raw(80_000_000_000_000),
            max_speed: Scalar::from_raw(2_500_000_000_000),
            detection_radius: Scalar::from_raw(60_000_000_000_000),
            flee_distance: Scalar::from_raw(40_000_000_000_000),
            energy_regeneration: Scalar::from_raw(300_000_000_000),
            energy_loss_fleeing: Scalar::from_raw(200_000_000_000),
            reproduction_threshold: Scalar::from_raw(120_000_000_000_000),
            reproduction_cost: Scalar::from_raw(60_000_000_000_000),
            initial_count: 50,
        }
    }
}

/// What happens at the edge of the world.
#[derive(Debug, Clone, Copy, PartialEq, Eq, Structural)]
pub enum BoundaryType {
    /// Opposite edges are joined: the world is a torus.
    Wraparound,
    /// The edges are walls.
    Walls,
}

/// World/environment parameters.
#[derive(Debug, Clone, Copy)]
pub struct WorldParameters {
    pub width: Scalar,
    pub height: Scalar,
    pub boundary_type: BoundaryType,
    pub food_spawn_rate: Scalar,
    pub food_energy: Scalar,
    pub enable_food: bool,
}

impl WorldParameters {
    /// The default world: a torus of 800 by 600, without food.
    pub open spec fn standard() -> WorldParameters {
        WorldParameters {
            width: Scalar { raw: 800_000_000_000_000 },
            height: Scalar { raw: 600_000_000_000_000 },
            boundary_type: BoundaryType::Wraparound,
            food_spawn_rate: Scalar { raw: 10_000_000_000 },
            food_energy: Scalar { raw: 20_000_000_000_000 },
            enable_food: false,
        }
    }
}

impl Default for WorldParameters {
    fn default() -> (p: Self)
        ensures
            p == WorldParameters::standard(),
    {
        WorldParameters {
            width: Scalar::from_raw(800_000_000_000_000),
            height: Scalar::from_raw(600_000_000_000_000),
            boundary_type: BoundaryType::Wraparound,
            food_spawn_rate: Scalar::from_raw(10_000_000_000),
            food_energy: Scalar::from_raw(20_000_000_000_000),
            enable_food: false,
        }
    }
}

/// Simulation control parameters.
#[derive(Debug, Clone, Copy)]
pub struct SimulationParameters {
    /// Updates per second.
    pub tick_rate: Scalar,
    pub max_agents: u32,
    pub enable_reproduction: bool,
    /// Time step of one tick (usually one over `tick_rate`).
    pub dt: Scalar,
}

impl Default for SimulationParameters {
    fn default() -> (p: Self)
        ensures
            p == SimulationParameters::standard(),
    {
        SimulationParameters {
            tick_rate: Scalar::from_raw(60_000_000_000_000),
            max_agents: 1000,
            enable_reproduction: true,
            dt: Scalar::from_raw(16_666_666_666),
        }
    }
}

impl SimulationParameters {
    /// The default control: sixty ticks a second, a time step of a sixtieth
    /// (rounded toward zero), at most a thousand agents, with reproduction.
    pub open spec fn standard() -> SimulationParameters {
        SimulationParameters {
            tick_rate: Scalar { raw: 60_000_000_000_000 },
            max_agents: 1000,
            enable_reproduction: true,
            dt: Scalar { raw: 16_666_666_666 },
        }
    }

    /// Sets the time step to one over the tick rate.
    pub fn update_dt(&mut self)
        ensures
            *final(self) == (SimulationParameters {
                dt: (Scalar { raw: SCALE }).over(old(self).tick_rate),
                ..*old(self)
            }),
    {
        self.dt = Scalar::one().div(self.tick_rate);
    }
}

/// Complete simulation parameters.
#[derive(Debug, Clone, Copy)]
pub struct Parameters {
    pub predator: PredatorParameters,
    pub prey: PreyParameters,
    pub world: WorldParameters,
    pub simulation: SimulationParameters,
}

impl Default for Parameters {
    fn default() -> (p: Self)
        ensures
            p == Parameters::standard(),
            p.is_valid(),
    {
        Parameters {
            predator: PredatorParameters::default(),
            prey: PreyParameters::default(),
            world: WorldParameters::default(),
            simulation: SimulationParameters::default(),
        }
    }
}

impl Parameters {
    /// The default parameters of each part.
    pub open spec fn standard() -> Parameters {
        Parameters {
            predator: PredatorParameters::standard(),
            prey: PreyParameters::standard(),
            world: WorldParameters::standard(),
            simulation: SimulationParameters::standard(),
        }
    }

    /// The reason for which the parameters are refused: that of the first
    /// constraint they break, or none where they break none.
    pub open spec fn violation(self) -> Option<Seq<char>> {
        if self.world.width@ <= 0 || self.world.height@ <= 0 {
            Some("World dimensions must be positive"@)
        } else if self.predator.max_speed@ <= 0 || self.prey.max_speed@ <= 0 {
            Some("Agent speeds must be positive"@)
        } else if self.predator.initial_energy@ <= 0 || self.prey.initial_energy@ <= 0 {
            Some("Initial energy must be positive"@)
        } else if self.simulation.tick_rate@ <= 0 {
            Some("Tick rate must be positive"@)
        } else {
            None
        }
    }

    /// World dimensions, agent speeds, initial energies and the tick rate
    /// are all positive.
    pub open spec fn is_valid(self) -> bool {
        &&& self.world.width@ > 0
        &&& self.world.height@ > 0
        &&& self.predator.max_speed@ > 0
        &&& self.prey.max_speed@ > 0
        &&& self.predator.initial_energy@ > 0
        &&& self.prey.initial_energy@ > 0
        &&& self.simulation.tick_rate@ > 0
    }

    /// Validate parameters to ensure they make sense.
    pub fn validate(&self) -> (r: Result<(), String>)
        ensures
            r is Ok <==> self.is_valid(),
            r is Ok <==> self.violation() is None,
            r matches Err(reason) ==> Some(reason@) == self.violation(),
    {
        if self.world.width.raw <= 0 || self.world.height.raw <= 0 {
            return Err("World dimensions must be positive".to_owned());
        }
        if self.predator.max_speed.raw <= 0 || self.prey.max_speed.raw <= 0 {
            return Err("Agent speeds must be positive".to_owned());
        }
        if self.predator.initial_energy.raw <= 0 || self.prey.initial_energy.raw <= 0 {
            return Err("Initial energy must be positive".to_owned());
        }
        if self.simulation.tick_rate.raw <= 0 {
            return Err("Tick rate must be positive".to_owned());
        }
        Ok(())
    }
}

} // verus!
