//! State and operations shared by both species.

use vstd::prelude::*;
use crate::config::parameters::BoundaryType;
use crate::utils::fixed::Scalar;
use crate::utils::math::{Vector2, wrap_position, clamp_position, wrap_position_spec,
    clamp_position_spec};
use crate::utils::random::{is_random_offset, random_offset};

verus! {

/// Unique identifier for agents.
pub type AgentId = u32;

/// Factor by which an agent with nothing to chase or flee slows down each tick.
pub const IDLE_DECAY: i64 = 950_000_000_000;

/// Raw length below which the offset of a newborn from its parent stays.
pub const SPAWN_RADIUS: i64 = 20_000_000_000_000;

/// Raw distance that a newborn keeps from the edges of the world.
pub const SPAWN_MARGIN: i64 = 10_000_000_000_000;

/// Agent type enumeration.
#[derive(Debug, Clone, Copy, PartialEq, Eq, Structural)]
pub enum AgentType {
    Predator,
    Prey,
}

/// What an agent perceives during one tick.
#[derive(Debug, Clone)]
pub struct WorldState {
    /// Width of the world.
    pub width: Scalar,
    /// Height of the world.
    pub height: Scalar,
    /// Boundary type (wraparound or walls).
    pub boundary_type: BoundaryType,
    /// Nearby predators: id, position, distance.
    pub nearby_predators: Vec<(AgentId, Vector2, Scalar)>,
    /// Nearby prey: id, position, distance.
    pub nearby_prey: Vec<(AgentId, Vector2, Scalar)>,
    /// Delta time (time step).
    pub dt: Scalar,
}

/// What an agent perceives during one tick, as plain values.
pub struct Perception {
    pub width: Scalar,
    pub height: Scalar,
    pub boundary_type: BoundaryType,
    pub nearby_predators: Seq<(AgentId, Vector2, Scalar)>,
    pub nearby_prey: Seq<(AgentId, Vector2, Scalar)>,
    pub dt: Scalar,
}

impl View for WorldState {
    type V = Perception;

    open spec fn view(&self) -> Perception {
        Perception {
            width: self.width,
            height: self.height,
            boundary_type: self.boundary_type,
            nearby_predators: self.nearby_predators@,
            nearby_prey: self.nearby_prey@,
            dt: self.dt,
        }
    }
}

/// Action that an agent can take during an update.
#[derive(Debug, Clone, Copy)]
pub enum AgentAction {
    /// No special action.
    Idle,
    /// Agent wants to move to a new position (with new velocity).
    Move { position: Vector2, velocity: Vector2 },
    /// Agent consumed another agent (predator eating prey).
    Consumed { target_id: AgentId },
    /// Agent wants to reproduce (spawn new agent).
    Reproduce { position: Vector2, energy: Scalar },
}

/// Index of the first entry of least distance (0 for an empty list).
pub open spec fn nearest_index(list: Seq<(AgentId, Vector2, Scalar)>) -> int
    decreases list.len(),
{
    if list.len() <= 1 {
        0
    } else {
        let best = nearest_index(list.drop_last());
        if list.last().2@ < list[best].2@ {
            list.len() - 1
        } else {
            best
        }
    }
}

/// The first entry of least distance.
pub open spec fn nearest(list: Seq<(AgentId, Vector2, Scalar)>) -> Option<
    (AgentId, Vector2, Scalar),
> {
    if list.len() == 0 {
        None
    } else {
        Some(list[nearest_index(list)])
    }
}

/// The entry at `nearest_index` is in the list, no entry is nearer, and all
/// before it are farther.
pub proof fn lemma_nearest_index(list: Seq<(AgentId, Vector2, Scalar)>)
    requires
        list.len() > 0,
    ensures
        0 <= nearest_index(list) < list.len(),
        forall|j: int| 0 <= j < list.len() ==> list[nearest_index(list)].2@ <= (#[trigger] list[j]).2@,
        forall|j: int|
            0 <= j < nearest_index(list) ==> list[nearest_index(list)].2@ < (#[trigger] list[j]).2@,
    decreases list.len(),
{
    if list.len() > 1 {
        let front = list.drop_last();
        lemma_nearest_index(front);
        let best = nearest_index(front);
        assert(forall|j: int| 0 <= j < front.len() ==> front[j] == list[j]);
    }
}

/// The first entry of least distance in a perception list.
pub fn find_nearest(list: &Vec<(AgentId, Vector2, Scalar)>) -> (found: Option<
    (AgentId, Vector2, Scalar),
>)
    ensures
        found == nearest(list@),
{
    if list.len() == 0 {
        return None;
    }
    let mut best: usize = 0;
    let mut i: usize = 1;
    assert(list@.take(1).len() == 1);
    while i < list.len()
        invariant
            1 <= i <= list.len(),
            0 <= best < i,
            best == nearest_index(list@.take(i as int)),
        decreases list.len() - i,
    {
        proof {
            let grown = list@.take(i + 1);
            assert(grown.drop_last() == list@.take(i as int));
            assert(grown.last() == list@[i as int]);
            assert(grown[best as int] == list@[best as int]);
        }
        if list[i].2.raw < list[best].2.raw {
            best = i;
        }
        i = i + 1;
    }
    assert(list@.take(list.len() as int) == list@);
    Some(list[best])
}

/// The site of a newborn: the parent's position moved by `offset`, then kept
/// `SPAWN_MARGIN` away from the edges of the world.
pub open spec fn spawn_position_spec(origin: Vector2, offset: Vector2, width: Scalar, height: Scalar)
    -> Vector2 {
    let moved = origin.plus(offset);
    let margin = Scalar { raw: SPAWN_MARGIN };
    Vector2 {
        x: moved.x.larger(margin).smaller(width.minus(margin)),
        y: moved.y.larger(margin).smaller(height.minus(margin)),
    }
}

/// `position` is the site of a newborn for some offset from `origin`: one
/// in some direction, of a length below `SPAWN_RADIUS`.
pub open spec fn is_spawn_near(position: Vector2, origin: Vector2, width: Scalar, height: Scalar)
    -> bool {
    exists|offset: Vector2|
        is_random_offset(offset, Scalar { raw: SPAWN_RADIUS }) && position
            == #[trigger] spawn_position_spec(origin, offset, width, height)
}

/// The site of a newborn for a given offset from its parent.
pub fn spawn_position(origin: Vector2, offset: Vector2, width: Scalar, height: Scalar) -> (p:
    Vector2)
    ensures
        p == spawn_position_spec(origin, offset, width, height),
{
    let moved = origin.add(&offset);
    let margin = Scalar::from_raw(SPAWN_MARGIN);
    Vector2 {
        x: moved.x.max(margin).min(width.sub(margin)),
        y: moved.y.max(margin).min(height.sub(margin)),
    }
}

/// A site for a newborn near `origin`: a random offset shorter than
/// `SPAWN_RADIUS`, kept `SPAWN_MARGIN` away from the edges of the world.
pub fn spawn_near(origin: Vector2, width: Scalar, height: Scalar) -> (p: Vector2)
    ensures
        is_spawn_near(p, origin, width, height),
{
    let offset = random_offset(Scalar::from_raw(SPAWN_RADIUS));
    spawn_position(origin, offset, width, height)
}

/// An action as planned and as carried out: they are the same, but that
/// a planned birth names the parent's position and the birth carried out a
/// site near it.
pub open spec fn realizes(actual: AgentAction, planned: AgentAction, width: Scalar, height: Scalar)
    -> bool {
    match planned {
        AgentAction::Reproduce { position: origin, energy: planned_energy } => {
            actual matches AgentAction::Reproduce { position, energy } && energy == planned_energy
                && is_spawn_near(position, origin, width, height)
        },
        _ => actual == planned,
    }
}

/// Base agent data structure.
#[derive(Debug, Clone, Copy)]
pub struct BaseAgent {
    pub id: AgentId,
    pub agent_type: AgentType,
    pub position: Vector2,
    pub velocity: Vector2,
    pub energy: Scalar,
    pub age: u32,
    pub max_speed: Scalar,
}

/// The state of an agent at its creation: at rest, of age zero.
pub open spec fn newborn(
    id: AgentId,
    agent_type: AgentType,
    position: Vector2,
    initial_energy: Scalar,
    max_speed: Scalar,
) -> BaseAgent {
    BaseAgent {
        id,
        agent_type,
        position,
        velocity: Vector2 { x: Scalar { raw: 0 }, y: Scalar { raw: 0 } },
        energy: initial_energy,
        age: 0,
        max_speed,
    }
}

impl BaseAgent {
    /// The agent after one step of `dt` along its velocity, brought back
    /// into the world by the boundary policy.
    pub open spec fn moved(self, seen: Perception) -> BaseAgent {
        let target = self.position.plus(self.velocity.scaled(seen.dt));
        BaseAgent {
            position: match seen.boundary_type {
                BoundaryType::Wraparound => wrap_position_spec(target, seen.width, seen.height),
                BoundaryType::Walls => clamp_position_spec(target, seen.width, seen.height),
            },
            ..self
        }
    }

    /// The agent with `velocity` cut down to its maximum speed.
    pub open spec fn with_velocity(self, velocity: Vector2) -> BaseAgent {
        BaseAgent { velocity: velocity.limited(self.max_speed), ..self }
    }

    /// The agent after it spent `amount` of energy: no less than zero is left.
    pub open spec fn drained(self, amount: Scalar) -> BaseAgent {
        BaseAgent { energy: self.energy.minus(amount).larger(Scalar { raw: 0 }), ..self }
    }

    /// The agent after it gained `amount` of energy. Energy has no ceiling
    /// of its own: the sum only saturates at the largest number there is.
    pub open spec fn fed(self, amount: Scalar) -> BaseAgent {
        BaseAgent { energy: self.energy.plus(amount), ..self }
    }

    /// The agent one tick older; the age stays at the largest `u32`.
    pub open spec fn aged(self) -> BaseAgent {
        BaseAgent { age: if self.age < u32::MAX { (self.age + 1) as u32 } else { self.age }, ..self }
    }

    /// Whether the agent has energy left.
    pub open spec fn alive(self) -> bool {
        self.energy@ > 0
    }

    /// Whether the agent is no faster than its maximum speed.
    pub open spec fn within_speed(self) -> bool {
        self.velocity.norm()@ <= self.max_speed@
    }

    /// Create a new base agent.
    pub fn new(
        id: AgentId,
        agent_type: AgentType,
        position: Vector2,
        initial_energy: Scalar,
        max_speed: Scalar,
    ) -> (agent: BaseAgent)
        ensures
            agent == newborn(id, agent_type, position, initial_energy, max_speed),
    {
        BaseAgent {
            id,
            agent_type,
            position,
            velocity: Vector2::zero(),
            energy: initial_energy,
            age: 0,
            max_speed,
        }
    }

    /// Update the agent's position based on velocity.
    pub fn update_position(&mut self, world_state: &WorldState)
        ensures
            *final(self) == old(self).moved(world_state@),
    {
        let dt = world_state.dt;
        let new_position = self.position.add(&self.velocity.scale(dt));
        self.position = match world_state.boundary_type {
            BoundaryType::Wraparound => wrap_position(
                new_position,
                world_state.width,
                world_state.height,
            ),
            BoundaryType::Walls => clamp_position(
                new_position,
                world_state.width,
                world_state.height,
            ),
        };
    }

    /// Set the velocity, ensuring it doesn't exceed max_speed.
    pub fn set_velocity(&mut self, velocity: Vector2)
        ensures
            *final(self) == old(self).with_velocity(velocity),
            old(self).max_speed@ >= 0 ==> final(self).within_speed(),
    {
        self.velocity = velocity.limit(self.max_speed);
    }

    /// Reduce energy by the given amount; the energy never falls below zero.
    pub fn consume_energy(&mut self, amount: Scalar)
        ensures
            *final(self) == old(self).drained(amount),
            final(self).energy@ >= 0,
    {
        self.energy = self.energy.sub(amount).max(Scalar::zero());
    }

    /// Add energy, without any ceiling below the largest number.
    pub fn add_energy(&mut self, amount: Scalar)
        ensures
            *final(self) == old(self).fed(amount),
            old(self).energy@ >= 0 && amount@ >= 0 ==> final(self).energy@ >= 0,
    {
        self.energy = self.energy.add(amount);
    }

    /// Increment age.
    pub fn increment_age(&mut self)
        ensures
            *final(self) == old(self).aged(),
    {
        if self.age < u32::MAX {
            self.age = self.age + 1;
        }
    }

    /// Check if agent is alive (has energy > 0).
    pub fn check_alive(&self) -> (alive: bool)
        ensures
            alive == self.alive(),
    {
        self.energy.raw > 0
    }
}

/// Base agent trait - all agents must implement this.
pub trait Agent {
    /// The state that the agent shares with the other species.
    spec fn state(&self) -> BaseAgent;

    /// The energy that the agent asks for its offspring: the initial
    /// energy of the parameters that it was created with.
    spec fn endowment(&self) -> Scalar;

    /// Get the agent's unique ID.
    fn id(&self) -> (id: AgentId)
        ensures
            id == self.state().id,
    ;

    /// Get the agent's type.
    fn agent_type(&self) -> (kind: AgentType)
        ensures
            kind == self.state().agent_type,
    ;

    /// Get the agent's current position.
    fn position(&self) -> (position: Vector2)
        ensures
            position == self.state().position,
    ;

    /// Get the agent's current velocity.
    fn velocity(&self) -> (velocity: Vector2)
        ensures
            velocity == self.state().velocity,
    ;

    /// Get the agent's current energy level.
    fn energy(&self) -> (energy: Scalar)
        ensures
            energy == self.state().energy,
    ;

    /// Check if the agent is alive.
    fn is_alive(&self) -> (alive: bool)
        ensures
            alive == self.state().alive(),
    ;

    /// Get the agent's age (number of ticks lived).
    fn age(&self) -> (age: u32)
        ensures
            age == self.state().age,
    ;

    /// Update the agent - called each simulation tick. Identity, kind and
    /// maximum speed stay; the agent is one tick older.
    fn update(&mut self, world_state: &WorldState) -> (action: AgentAction)
        ensures
            final(self).state().id == old(self).state().id,
            final(self).state().agent_type == old(self).state().agent_type,
            final(self).state().max_speed == old(self).state().max_speed,
            final(self).state().age == old(self).state().aged().age,
    ;

    /// Get the agent's maximum speed.
    fn max_speed(&self) -> (max_speed: Scalar)
        ensures
            max_speed == self.state().max_speed,
    ;
}

} // verus!
