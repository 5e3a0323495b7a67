//! Prey agent: regenerates energy and flees from the nearest predator.

use vstd::prelude::*;
use crate::config::parameters::PreyParameters;
use crate::simulation::agent::{Agent, AgentAction, AgentId, AgentType, BaseAgent, Perception,
    WorldState, IDLE_DECAY, find_nearest, nearest, newborn, realizes, spawn_near};
use crate::utils::fixed::{Scalar, SCALE};
use crate::utils::math::{Vector2, lemma_limited_within};
use crate::utils::random::{is_random_direction, lemma_direction_exists, direction_of,
    random_direction};

verus! {

/// Factor by which a prey slows down each tick while a predator is in
/// sight but beyond flee distance.
pub const WARY_DECAY: i64 = 900_000_000_000;

/// Velocity at full speed from the agent's position straight away from
/// `threat`; `escape` where the agent stands on it.
pub open spec fn flee_velocity(base: BaseAgent, threat: Vector2, escape: Vector2) -> Vector2 {
    let away = base.position.minus(threat);
    if away.norm()@ > 0 {
        away.normalized().scaled(base.max_speed)
    } else {
        escape
    }
}

/// The prey after the tick's regeneration, one tick older.
pub open spec fn prey_regenerated(base: BaseAgent, params: PreyParameters, seen: Perception)
    -> BaseAgent {
    base.fed(params.energy_regeneration.times(seen.dt)).aged()
}

/// Whether the prey, alive after regeneration, has its nearest predator
/// within flee distance.
pub open spec fn prey_flees(base: BaseAgent, params: PreyParameters, seen: Perception)
    -> bool {
    &&& prey_regenerated(base, params, seen).alive()
    &&& nearest(seen.nearby_predators) matches Some(threat)
    &&& threat.2@ <= params.flee_distance@
}

/// The surviving prey after steering: away from the nearest predator at full
/// speed and at the cost of fleeing where it is within flee distance (along
/// `escape` where the two coincide), else slowing down.
pub open spec fn prey_steered(
    base: BaseAgent,
    params: PreyParameters,
    seen: Perception,
    escape: Vector2,
) -> BaseAgent {
    let fed = prey_regenerated(base, params, seen);
    match nearest(seen.nearby_predators) {
        Some(threat) => if threat.2@ <= params.flee_distance@ {
            fed.with_velocity(flee_velocity(fed, threat.1, escape)).drained(
                params.energy_loss_fleeing.times(seen.dt),
            )
        } else {
            fed.with_velocity(fed.velocity.scaled(Scalar { raw: WARY_DECAY }))
        },
        None => fed.with_velocity(fed.velocity.scaled(Scalar { raw: IDLE_DECAY })),
    }
}

/// Whether the surviving prey reproduces.
pub open spec fn prey_reproduces(
    base: BaseAgent,
    params: PreyParameters,
    seen: Perception,
    escape: Vector2,
) -> bool {
    &&& prey_regenerated(base, params, seen).alive()
    &&& prey_steered(base, params, seen, escape).energy@ >= params.reproduction_threshold@
}

/// The prey's state after one tick.
pub open spec fn prey_next(
    base: BaseAgent,
    params: PreyParameters,
    seen: Perception,
    escape: Vector2,
) -> BaseAgent {
    let fed = prey_regenerated(base, params, seen);
    if !fed.alive() {
        fed
    } else if prey_reproduces(base, params, seen, escape) {
        prey_steered(base, params, seen, escape).drained(params.reproduction_cost)
    } else {
        prey_steered(base, params, seen, escape).moved(seen)
    }
}

/// The prey's action of one tick; a birth is planned at the parent's
/// position.
pub open spec fn prey_plan(
    base: BaseAgent,
    params: PreyParameters,
    seen: Perception,
    escape: Vector2,
) -> AgentAction {
    if prey_reproduces(base, params, seen, escape) {
        AgentAction::Reproduce {
            position: prey_next(base, params, seen, escape).position,
            energy: params.initial_energy,
        }
    } else {
        AgentAction::Idle
    }
}

/// A prey and its action after one tick in which it perceived `seen`: for
/// some random velocity `escape`, taken where the prey stood on the predator
/// it fled from, they are the state and the action that follow.
pub open spec fn prey_decided(before: Prey, seen: Perception, after: Prey, action: AgentAction)
    -> bool {
    &&& after.parameters() == before.parameters()
    &&& exists|escape: Vector2|
        {
            &&& is_random_direction(escape, before.state().max_speed)
            &&& after.state() == #[trigger] prey_next(
                before.state(),
                before.parameters(),
                seen,
                escape,
            )
            &&& realizes(
                action,
                prey_plan(before.state(), before.parameters(), seen, escape),
                seen.width,
                seen.height,
            )
        }
}

/// Energy and speed of a prey stay in bounds over a tick: where energy and
/// regeneration are not negative the energy is not negative afterwards, and
/// where the maximum speed is not negative and was kept before, it is kept
/// afterwards.
pub proof fn lemma_prey_bounds(
    base: BaseAgent,
    params: PreyParameters,
    seen: Perception,
    escape: Vector2,
)
    ensures
        base.energy@ >= 0 && params.energy_regeneration.times(seen.dt)@ >= 0 ==> prey_next(
            base,
            params,
            seen,
            escape,
        ).energy@ >= 0,
        base.max_speed@ >= 0 && base.within_speed() ==> prey_next(
            base,
            params,
            seen,
            escape,
        ).within_speed(),
{
    let fed = prey_regenerated(base, params, seen);
    if base.max_speed@ >= 0 && fed.alive() {
        match nearest(seen.nearby_predators) {
            Some(threat) => {
                lemma_limited_within(flee_velocity(fed, threat.1, escape), fed.max_speed);
                lemma_limited_within(fed.velocity.scaled(Scalar { raw: WARY_DECAY }), fed.max_speed);
            },
            None => lemma_limited_within(
                fed.velocity.scaled(Scalar { raw: IDLE_DECAY }),
                fed.max_speed,
            ),
        }
    }
}

/// Prey agent.
#[derive(Debug, Clone, Copy)]
pub struct Prey {
    base: BaseAgent,
    params: PreyParameters,
}

impl Prey {
    /// The parameters that the prey was created with.
    pub closed spec fn parameters(&self) -> PreyParameters {
        self.params
    }

    /// The prey with the given state and parameters.
    pub closed spec fn of(base: BaseAgent, params: PreyParameters) -> Prey {
        Prey { base, params }
    }

    /// A prey is made of its state and its parameters, and of nothing else.
    pub broadcast proof fn lemma_of(base: BaseAgent, params: PreyParameters)
        ensures
            (#[trigger] Prey::of(base, params)).state() == base,
            Prey::of(base, params).parameters() == params,
    {
    }

    /// Two of the same state and parameters are the same.
    pub proof fn lemma_determined(self)
        ensures
            self == Prey::of(self.state(), self.parameters()),
    {
    }

    /// The prey as it is born with a given energy: at rest, of age zero,
    /// with the parameters and the maximum speed of `params`.
    pub open spec fn born_with(
        id: AgentId,
        position: Vector2,
        energy: Scalar,
        params: PreyParameters,
    ) -> Prey {
        Prey::of(newborn(id, AgentType::Prey, position, energy, params.max_speed), params)
    }

    /// The prey as it is created: born with the initial energy of `params`.
    pub open spec fn created(id: AgentId, position: Vector2, params: PreyParameters) -> Prey {
        Prey::born_with(id, position, params.initial_energy, params)
    }

    /// Create a new prey agent.
    pub fn new(id: AgentId, position: Vector2, params: PreyParameters) -> (prey: Prey)
        ensures
            prey == Prey::created(id, position, params),
            prey.parameters() == params,
            prey.state() == newborn(
                id,
                AgentType::Prey,
                position,
                params.initial_energy,
                params.max_speed,
            ),
    {
        let base = BaseAgent::new(
            id,
            AgentType::Prey,
            position,
            params.initial_energy,
            params.max_speed,
        );
        Prey { base, params }
    }

    /// Create a new prey agent that starts with `energy` in place of the
    /// initial energy of its parameters: the offspring that a birth asks for.
    pub fn born(id: AgentId, position: Vector2, energy: Scalar, params: PreyParameters) -> (prey: Prey)
        ensures
            prey == Prey::born_with(id, position, energy, params),
            prey.parameters() == params,
            prey.state() == newborn(id, AgentType::Prey, position, energy, params.max_speed),
    {
        let base = BaseAgent::new(id, AgentType::Prey, position, energy, params.max_speed);
        Prey { base, params }
    }

    /// Find the nearest predator within detection radius.
    pub fn find_nearest_predator(&self, world_state: &WorldState) -> (found: Option<
        (AgentId, Vector2, Scalar),
    >)
        ensures
            found == nearest(world_state@.nearby_predators),
    {
        find_nearest(&world_state.nearby_predators)
    }

    /// Calculate flee velocity away from a threat: straight away from it
    /// at full speed. A prey that stands on the threat flees in a random
    /// direction at full speed instead: that velocity is not zero unless the
    /// maximum speed is.
    pub fn flee(&self, threat: Vector2) -> (velocity: Vector2)
        ensures
            self.state().position.minus(threat).norm()@ > 0 ==> velocity
                == self.state().position.minus(threat).normalized().scaled(
                self.state().max_speed,
            ),
            self.state().position.minus(threat).norm()@ <= 0 ==> is_random_direction(
                velocity,
                self.state().max_speed,
            ),
            threat == self.state().position ==> self.state().position.minus(threat).norm()@ == 0,
            threat == self.state().position && self.state().max_speed@ != 0 ==> !velocity.is_zero(),
    {
        let away = self.base.position.subtract(&threat);
        let distance = away.magnitude();
        proof {
            if threat == self.base.position {
                crate::utils::math::lemma_zero_length(away);
            }
        }
        if distance.raw > 0 {
            away.normalize().scale(self.base.max_speed)
        } else {
            random_direction(self.base.max_speed)
        }
    }
}

impl Agent for Prey {
    closed spec fn state(&self) -> BaseAgent {
        self.base
    }

    open spec fn endowment(&self) -> Scalar {
        self.parameters().initial_energy
    }

    fn id(&self) -> (id: AgentId) {
        self.base.id
    }

    fn agent_type(&self) -> (kind: AgentType) {
        self.base.agent_type
    }

    fn position(&self) -> (position: Vector2) {
        self.base.position
    }

    fn velocity(&self) -> (velocity: Vector2) {
        self.base.velocity
    }

    fn energy(&self) -> (energy: Scalar) {
        self.base.energy
    }

    fn is_alive(&self) -> (alive: bool) {
        self.base.check_alive()
    }

    fn age(&self) -> (age: u32) {
        self.base.age
    }

    fn max_speed(&self) -> (max_speed: Scalar) {
        self.base.max_speed
    }

    /// One tick of a prey: regenerate and age; if dead, do nothing more;
    /// flee from the nearest predator where it is within flee distance, else
    /// slow down; then reproduce where the energy allows, else move. Where
    /// the prey stands on the predator it flees from, the velocity that it
    /// takes is left to chance. A prey never consumes.
    fn update(&mut self, world_state: &WorldState) -> (action: AgentAction)
        ensures
            prey_decided(*old(self), world_state@, *final(self), action),
            !(action is Consumed),
    {
        let ghost before = self.base;
        let ghost mut escape = direction_of(SCALE as int, 0).scaled(self.base.max_speed);
        proof {
            lemma_direction_exists(self.base.max_speed);
        }
        self.base.add_energy(self.params.energy_regeneration.mul(world_state.dt));
        self.base.increment_age();

        if !self.base.check_alive() {
            assert(self.base == prey_next(before, self.params, world_state@, escape));
            return AgentAction::Idle;
        }

        match self.find_nearest_predator(world_state) {
            Some((_, predator_pos, distance)) => {
                if distance.raw <= self.params.flee_distance.raw {
                    let flee_velocity = self.flee(predator_pos);
                    proof {
                        if self.base.position.minus(predator_pos).norm()@ <= 0 {
                            escape = flee_velocity;
                        }
                    }
                    self.base.set_velocity(flee_velocity);
                    self.base.consume_energy(self.params.energy_loss_fleeing.mul(world_state.dt));
                } else {
                    let slowed = self.base.velocity.scale(Scalar::from_raw(WARY_DECAY));
                    self.base.set_velocity(slowed);
                }
            },
            None => {
                let slowed = self.base.velocity.scale(Scalar::from_raw(IDLE_DECAY));
                self.base.set_velocity(slowed);
            },
        }
        assert(self.base == prey_steered(before, self.params, world_state@, escape));

        if self.base.energy.raw >= self.params.reproduction_threshold.raw {
            let spawn_pos = spawn_near(self.base.position, world_state.width, world_state.height);
            self.base.consume_energy(self.params.reproduction_cost);
            assert(self.base == prey_next(before, self.params, world_state@, escape));
            return AgentAction::Reproduce { position: spawn_pos, energy: self.params.initial_energy };
        }

        self.base.update_position(world_state);
        assert(self.base == prey_next(before, self.params, world_state@, escape));

        AgentAction::Idle
    }
}

} // verus!
