//! Predator agent: hunts the nearest prey and lives on what it catches.

use vstd::prelude::*;
use crate::config::parameters::PredatorParameters;
use crate::simulation::agent::{Agent, AgentAction, AgentId, AgentType, BaseAgent, Perception,
    WorldState, IDLE_DECAY, find_nearest, nearest, newborn, realizes, spawn_near};
use crate::utils::fixed::Scalar;
use crate::utils::math::Vector2;

verus! {

/// Velocity at full speed from the agent's position straight toward
/// `target`; zero where the agent stands on it.
pub open spec fn seek_velocity(base: BaseAgent, target: Vector2) -> Vector2 {
    let desired = target.minus(base.position);
    if desired.norm()@ > 0 {
        desired.normalized().scaled(base.max_speed)
    } else {
        Vector2 { x: Scalar { raw: 0 }, y: Scalar { raw: 0 } }
    }
}

/// The predator after the tick's metabolic cost, one tick older.
pub open spec fn predator_metabolized(
    base: BaseAgent,
    params: PredatorParameters,
    seen: Perception,
) -> BaseAgent {
    base.drained(params.energy_per_tick.times(seen.dt)).aged()
}

/// Whether the predator, still alive after the metabolic cost, has its
/// nearest prey within capture distance.
pub open spec fn predator_captures(
    base: BaseAgent,
    params: PredatorParameters,
    seen: Perception,
) -> bool {
    &&& predator_metabolized(base, params, seen).alive()
    &&& nearest(seen.nearby_prey) matches Some(target)
    &&& target.2@ <= params.capture_distance@
}

/// The surviving predator that caught nothing, after steering: toward the
/// nearest prey at full speed, or slowing down where it perceives none.
pub open spec fn predator_steered(
    base: BaseAgent,
    params: PredatorParameters,
    seen: Perception,
) -> BaseAgent {
    let fed = predator_metabolized(base, params, seen);
    match nearest(seen.nearby_prey) {
        Some(target) => fed.with_velocity(seek_velocity(fed, target.1)),
        None => fed.with_velocity(fed.velocity.scaled(Scalar { raw: IDLE_DECAY })),
    }
}

/// Whether the surviving predator that caught nothing reproduces.
pub open spec fn predator_reproduces(
    base: BaseAgent,
    params: PredatorParameters,
    seen: Perception,
) -> bool {
    &&& predator_metabolized(base, params, seen).alive()
    &&& !predator_captures(base, params, seen)
    &&& predator_steered(base, params, seen).energy@ >= params.reproduction_threshold@
}

/// The predator's state after one tick.
pub open spec fn predator_next(base: BaseAgent, params: PredatorParameters, seen: Perception)
    -> BaseAgent {
    let fed = predator_metabolized(base, params, seen);
    if !fed.alive() {
        fed
    } else if predator_captures(base, params, seen) {
        fed.fed(params.energy_gain_from_prey)
    } else if predator_reproduces(base, params, seen) {
        predator_steered(base, params, seen).drained(params.reproduction_cost)
    } else {
        predator_steered(base, params, seen).moved(seen)
    }
}

/// The predator's action of one tick; a birth is planned at the parent's
/// position.
pub open spec fn predator_plan(base: BaseAgent, params: PredatorParameters, seen: Perception)
    -> AgentAction {
    if predator_captures(base, params, seen) {
        AgentAction::Consumed { target_id: nearest(seen.nearby_prey).unwrap().0 }
    } else if predator_reproduces(base, params, seen) {
        AgentAction::Reproduce {
            position: predator_next(base, params, seen).position,
            energy: params.initial_energy,
        }
    } else {
        AgentAction::Idle
    }
}

/// A predator and its action after one tick in which it perceived `seen`.
pub open spec fn predator_decided(
    before: Predator,
    seen: Perception,
    after: Predator,
    action: AgentAction,
) -> bool {
    &&& after.parameters() == before.parameters()
    &&& after.state() == predator_next(before.state(), before.parameters(), seen)
    &&& realizes(
        action,
        predator_plan(before.state(), before.parameters(), seen),
        seen.width,
        seen.height,
    )
}

/// A predator with a prey within capture distance consumes exactly the
/// nearest one, and ends the tick with the energy that the metabolic cost
/// left it plus the gain from the prey; it neither moves nor reproduces.
pub proof fn lemma_capture(base: BaseAgent, params: PredatorParameters, seen: Perception)
    requires
        predator_captures(base, params, seen),
    ensures
        predator_plan(base, params, seen) == (AgentAction::Consumed {
            target_id: nearest(seen.nearby_prey).unwrap().0,
        }),
        predator_next(base, params, seen).energy == base.energy.minus(
            params.energy_per_tick.times(seen.dt),
        ).larger(Scalar { raw: 0 }).plus(params.energy_gain_from_prey),
        predator_next(base, params, seen).position == base.position,
        predator_next(base, params, seen).velocity == base.velocity,
{
}

/// A predator whose metabolic cost of one tick is no less than its energy is
/// dead after the tick, and does nothing in it.
pub proof fn lemma_starvation(base: BaseAgent, params: PredatorParameters, seen: Perception)
    requires
        params.energy_per_tick.times(seen.dt)@ >= base.energy@,
    ensures
        !predator_next(base, params, seen).alive(),
        predator_plan(base, params, seen) == AgentAction::Idle,
{
}

/// Energy and speed of a predator stay in bounds over a tick: where the gain
/// from a prey is not negative the energy is not negative afterwards, and
/// where the maximum speed is not negative and was kept before, it is kept
/// afterwards.
pub proof fn lemma_predator_bounds(
    base: BaseAgent,
    params: PredatorParameters,
    seen: Perception,
)
    ensures
        params.energy_gain_from_prey@ >= 0 ==> predator_next(base, params, seen).energy@
            >= 0,
        base.max_speed@ >= 0 && base.within_speed() ==> predator_next(
            base,
            params,
            seen,
        ).within_speed(),
{
    let fed = predator_metabolized(base, params, seen);
    if base.max_speed@ >= 0 && fed.alive() && !predator_captures(base, params, seen) {
        match nearest(seen.nearby_prey) {
            Some(target) => crate::utils::math::lemma_limited_within(
                seek_velocity(fed, target.1),
                fed.max_speed,
            ),
            None => crate::utils::math::lemma_limited_within(
                fed.velocity.scaled(Scalar { raw: IDLE_DECAY }),
                fed.max_speed,
            ),
        }
    }
}

/// Predator agent.
#[derive(Debug, Clone, Copy)]
pub struct Predator {
    base: BaseAgent,
    params: PredatorParameters,
}

impl Predator {
    /// The parameters that the predator was created with.
    pub closed spec fn parameters(&self) -> PredatorParameters {
        self.params
    }

    /// The predator with the given state and parameters.
    pub closed spec fn of(base: BaseAgent, params: PredatorParameters) -> Predator {
        Predator { base, params }
    }

    /// A predator is made of its state and its parameters, and of nothing else.
    pub broadcast proof fn lemma_of(base: BaseAgent, params: PredatorParameters)
        ensures
            (#[trigger] Predator::of(base, params)).state() == base,
            Predator::of(base, params).parameters() == params,
    {
    }

    /// Two of the same state and parameters are the same.
    pub proof fn lemma_determined(self)
        ensures
            self == Predator::of(self.state(), self.parameters()),
    {
    }

    /// The predator as it is born with a given energy: at rest, of age zero,
    /// with the parameters and the maximum speed of `params`.
    pub open spec fn born_with(
        id: AgentId,
        position: Vector2,
        energy: Scalar,
        params: PredatorParameters,
    ) -> Predator {
        Predator::of(newborn(id, AgentType::Predator, position, energy, params.max_speed), params)
    }

    /// The predator as it is created: born with the initial energy of `params`.
    pub open spec fn created(id: AgentId, position: Vector2, params: PredatorParameters) -> Predator {
        Predator::born_with(id, position, params.initial_energy, params)
    }

    /// Create a new predator agent.
    pub fn new(id: AgentId, position: Vector2, params: PredatorParameters) -> (predator: Predator)
        ensures
            predator == Predator::created(id, position, params),
            predator.parameters() == params,
            predator.state() == newborn(
                id,
                AgentType::Predator,
                position,
                params.initial_energy,
                params.max_speed,
            ),
    {
        let base = BaseAgent::new(
            id,
            AgentType::Predator,
            position,
            params.initial_energy,
            params.max_speed,
        );
        Predator { base, params }
    }

    /// Create a new predator agent that starts with `energy` in place of the
    /// initial energy of its parameters: the offspring that a birth asks for.
    pub fn born(id: AgentId, position: Vector2, energy: Scalar, params: PredatorParameters) -> (predator: Predator)
        ensures
            predator == Predator::born_with(id, position, energy, params),
            predator.parameters() == params,
            predator.state() == newborn(id, AgentType::Predator, position, energy, params.max_speed),
    {
        let base = BaseAgent::new(id, AgentType::Predator, position, energy, params.max_speed);
        Predator { base, params }
    }

    /// Find the nearest prey within perception radius.
    pub fn find_nearest_prey(&self, world_state: &WorldState) -> (found: Option<
        (AgentId, Vector2, Scalar),
    >)
        ensures
            found == nearest(world_state@.nearby_prey),
    {
        find_nearest(&world_state.nearby_prey)
    }

    /// Calculate steering velocity toward a target.
    pub fn seek(&self, target: Vector2) -> (velocity: Vector2)
        ensures
            velocity == seek_velocity(self.state(), target),
    {
        let desired = target.subtract(&self.base.position);
        let distance = desired.magnitude();
        if distance.raw > 0 {
            desired.normalize().scale(self.base.max_speed)
        } else {
            Vector2::zero()
        }
    }
}

impl Agent for Predator {
    closed spec fn state(&self) -> BaseAgent {
        self.base
    }

    open spec fn endowment(&self) -> Scalar {
        self.parameters().initial_energy
    }

    fn id(&self) -> (id: AgentId) {
        self.base.id
    }

    fn agent_type(&self) -> (kind: AgentType) {
        self.base.agent_type
    }

    fn position(&self) -> (position: Vector2) {
        self.base.position
    }

    fn velocity(&self) -> (velocity: Vector2) {
        self.base.velocity
    }

    fn energy(&self) -> (energy: Scalar) {
        self.base.energy
    }

    fn is_alive(&self) -> (alive: bool) {
        self.base.check_alive()
    }

    fn age(&self) -> (age: u32) {
        self.base.age
    }

    fn max_speed(&self) -> (max_speed: Scalar) {
        self.base.max_speed
    }

    /// One tick of a predator: pay the metabolic cost and age; if dead, do
    /// nothing more; consume the nearest prey where it is within capture
    /// distance; else steer, then reproduce where the energy allows, else move.
    fn update(&mut self, world_state: &WorldState) -> (action: AgentAction)
        ensures
            predator_decided(*old(self), world_state@, *final(self), action),
    {
        self.base.consume_energy(self.params.energy_per_tick.mul(world_state.dt));
        self.base.increment_age();

        if !self.base.check_alive() {
            return AgentAction::Idle;
        }

        match self.find_nearest_prey(world_state) {
            Some((prey_id, prey_pos, distance)) => {
                if distance.raw <= self.params.capture_distance.raw {
                    self.base.add_energy(self.params.energy_gain_from_prey);
                    return AgentAction::Consumed { target_id: prey_id };
                }
                let desired_velocity = self.seek(prey_pos);
                self.base.set_velocity(desired_velocity);
            },
            None => {
                let slowed = self.base.velocity.scale(Scalar::from_raw(IDLE_DECAY));
                self.base.set_velocity(slowed);
            },
        }

        if self.base.energy.raw >= self.params.reproduction_threshold.raw {
            let spawn_pos = spawn_near(self.base.position, world_state.width, world_state.height);
            self.base.consume_energy(self.params.reproduction_cost);
            return AgentAction::Reproduce { position: spawn_pos, energy: self.params.initial_energy };
        }

        self.base.update_position(world_state);

        AgentAction::Idle
    }
}

} // verus!
