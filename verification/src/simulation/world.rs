//! The world: both populations, and the tick that advances them.

use vstd::prelude::*;
use crate::config::parameters::Parameters;
use crate::simulation::agent::{Agent, AgentAction, AgentId, AgentType, WorldState};
use crate::simulation::perception::{is_snapshot, perceive, predator_perception, prey_perception};
use crate::simulation::predator::{Predator, predator_decided};
use crate::simulation::prey::{Prey, prey_decided};
use crate::simulation::soundness::{acceptable, lemma_births_of_prefix, lemma_commit_ranked,
    lemma_drawn_disjoint,
    lemma_newborn_sound, lemma_skip_sound, lemma_tick_sound, sound_world};
use crate::simulation::tick::{all_prey_decided, is_tick, born_predators, born_prey, capacity_cuts,
    collect_consumed, committed_next_id, committed_predators, committed_prey, granted_births,
    viable,
    lemma_cuts, predator_cut, predators_decided, prey_cut, remove_consumed, remove_dead,
    settled_predators, settled_prey};
use crate::utils::fixed::{Scalar, lemma_mean_in_range, trunc_div};
use crate::utils::math::Vector2;
use crate::utils::random::random_position;

verus! {

broadcast use {Predator::lemma_of, Prey::lemma_of};

/// `position` lies in the rectangle `[0, width) x [0, height)`.
pub open spec fn in_world(position: Vector2, width: Scalar, height: Scalar) -> bool {
    0 <= position.x@ < width@ && 0 <= position.y@ < height@
}

/// `placed` are predators as they are created from `params`, somewhere in
/// the world, with the ids from `first_id` on in turn.
pub open spec fn placed_predators(placed: Seq<Predator>, first_id: int, params: Parameters)
    -> bool {
    forall|i: int|
        0 <= i < placed.len() ==> {
            &&& in_world(
                (#[trigger] placed[i]).state().position,
                params.world.width,
                params.world.height,
            )
            &&& first_id + i <= u32::MAX
            &&& placed[i] == Predator::created(
                (first_id + i) as u32,
                placed[i].state().position,
                params.predator,
            )
        }
}

/// `placed` are prey as they are created from `params`, somewhere in the
/// world, with the ids from `first_id` on in turn.
pub open spec fn placed_prey(placed: Seq<Prey>, first_id: int, params: Parameters) -> bool {
    forall|i: int|
        0 <= i < placed.len() ==> {
            &&& in_world(
                (#[trigger] placed[i]).state().position,
                params.world.width,
                params.world.height,
            )
            &&& first_id + i <= u32::MAX
            &&& placed[i] == Prey::created(
                (first_id + i) as u32,
                placed[i].state().position,
                params.prey,
            )
        }
}

/// How many agents a world of `total` agents still has room for.
pub open spec fn room(total: nat, max_agents: u32) -> int {
    if total >= max_agents {
        0
    } else {
        max_agents - total
    }
}

/// How many of `count` agents asked for are spawned in a world of `total`
/// agents: as many as there is room for.
pub open spec fn spawnable(count: u32, total: nat, max_agents: u32) -> int {
    if count <= room(total, max_agents) {
        count as int
    } else {
        room(total, max_agents)
    }
}

/// The energies of a population, in raw units, added up.
pub open spec fn total_energy<A: Agent>(population: Seq<A>) -> int
    decreases population.len(),
{
    if population.len() == 0 {
        0
    } else {
        total_energy(population.drop_last()) + population.last().state().energy@
    }
}

/// The mean energy of a population, rounded toward zero; zero for an empty
/// one.
pub open spec fn average_energy<A: Agent>(population: Seq<A>) -> Scalar {
    if population.len() == 0 {
        Scalar { raw: 0 }
    } else {
        Scalar { raw: trunc_div(total_energy(population), population.len() as int) as i64 }
    }
}

/// The mean energy of a population.
pub fn mean_energy<A: Agent>(population: &Vec<A>) -> (mean: Scalar)
    ensures
        mean == average_energy(population@),
{
    if population.len() == 0 {
        return Scalar::zero();
    }
    let mut sum: i128 = 0;
    let mut i: usize = 0;
    while i < population.len()
        invariant
            i <= population.len(),
            sum == total_energy(population@.take(i as int)),
            i * i64::MIN <= sum <= i * i64::MAX,
        decreases population.len() - i,
    {
        proof {
            let grown = population@.take(i + 1);
            assert(grown.drop_last() == population@.take(i as int));
            assert(grown.last() == population@[i as int]);
            assert((i + 1) * i64::MIN == i * i64::MIN + i64::MIN) by (nonlinear_arith);
            assert((i + 1) * i64::MAX == i * i64::MAX + i64::MAX) by (nonlinear_arith);
            assert(-0x1_0000_0000_0000_0000 * 0x8000_0000_0000_0000 <= i * i64::MIN) by (nonlinear_arith)
                requires
                    0 <= i <= 0xffff_ffff_ffff_ffff,
            ;
            assert(i * i64::MAX <= 0x1_0000_0000_0000_0000 * 0x8000_0000_0000_0000) by (nonlinear_arith)
                requires
                    0 <= i <= 0xffff_ffff_ffff_ffff,
            ;
        }
        sum = sum + population[i].energy().raw as i128;
        i = i + 1;
    }
    proof {
        assert(population@.take(population.len() as int) == population@);
        lemma_mean_in_range(sum as int, population.len() as int);
    }
    let count: i128 = population.len() as i128;
    Scalar { raw: (sum / count) as i64 }
}

/// World manages all agents and the simulation environment.
pub struct World {
    predators: Vec<Predator>,
    prey: Vec<Prey>,
    params: Parameters,
    next_id: AgentId,
}

impl World {
    /// The predators, oldest first.
    pub closed spec fn predator_seq(&self) -> Seq<Predator> {
        self.predators@
    }

    /// The prey, oldest first.
    pub closed spec fn prey_seq(&self) -> Seq<Prey> {
        self.prey@
    }

    /// The current parameters.
    pub closed spec fn configuration(&self) -> Parameters {
        self.params
    }

    /// The id that the next agent gets.
    pub closed spec fn next_id(&self) -> AgentId {
        self.next_id
    }

    /// The number of agents of both kinds.
    pub open spec fn population(&self) -> nat {
        self.predator_seq().len() + self.prey_seq().len()
    }

    /// The world is in a state that its operations leave it in.
    pub open spec fn wf(&self) -> bool {
        sound_world(self.predator_seq(), self.prey_seq(), self.configuration(), self.next_id())
    }

    /// Between two operations every agent is alive, so its energy is
    /// positive, and none is faster than its maximum speed.
    pub proof fn lemma_agents_in_bounds(&self)
        requires
            self.wf(),
        ensures
            forall|i: int|
                0 <= i < self.predator_seq().len() ==> (#[trigger] self.predator_seq()[i]).state().energy@
                    > 0 && self.predator_seq()[i].state().velocity.norm()@
                    <= self.predator_seq()[i].state().max_speed@,
            forall|j: int|
                0 <= j < self.prey_seq().len() ==> (#[trigger] self.prey_seq()[j]).state().energy@ > 0
                    && self.prey_seq()[j].state().velocity.norm()@
                    <= self.prey_seq()[j].state().max_speed@,
    {
    }

    /// Whether a world accepts the parameters.
    pub fn accepts(params: &Parameters) -> (accepted: bool)
        ensures
            accepted == acceptable(*params),
    {
        let sum: u64 = params.predator.initial_count as u64 + params.prey.initial_count as u64;
        params.validate().is_ok() && sum < u32::MAX as u64
    }

    /// Create a new world with the given parameters, seeded with the initial
    /// populations at random positions. The predators get the ids from 1 on,
    /// the prey those that follow.
    pub fn new(params: Parameters) -> (world: World)
        requires
            acceptable(params),
        ensures
            world.wf(),
            world.configuration() == params,
            world.predator_seq().len() == params.predator.initial_count,
            world.prey_seq().len() == params.prey.initial_count,
            world.next_id() == 1 + params.predator.initial_count + params.prey.initial_count,
            placed_predators(world.predator_seq(), 1, params),
            placed_prey(world.prey_seq(), 1 + params.predator.initial_count, params),
    {
        let mut world = World { predators: Vec::new(), prey: Vec::new(), params, next_id: 1 };
        world.initialize_agents();
        world
    }

    /// Initialize agents according to parameters.
    fn initialize_agents(&mut self)
        requires
            acceptable(old(self).params),
            old(self).predators@.len() == 0,
            old(self).prey@.len() == 0,
            old(self).next_id == 1,
        ensures
            final(self).wf(),
            final(self).params == old(self).params,
            final(self).predators@.len() == old(self).params.predator.initial_count,
            final(self).prey@.len() == old(self).params.prey.initial_count,
            final(self).next_id == 1 + old(self).params.predator.initial_count + old(
                self,
            ).params.prey.initial_count,
            placed_predators(final(self).predators@, 1, old(self).params),
            placed_prey(
                final(self).prey@,
                1 + old(self).params.predator.initial_count,
                old(self).params,
            ),
    {
        let predator_count = self.params.predator.initial_count;
        let prey_count = self.params.prey.initial_count;
        let mut i: u32 = 0;
        while i < predator_count
            invariant
                i <= predator_count,
                predator_count == self.params.predator.initial_count,
                prey_count == self.params.prey.initial_count,
                self.params == old(self).params,
                acceptable(self.params),
                self.predators@.len() == i,
                self.prey@.len() == 0,
                self.next_id == 1 + i,
                sound_world(self.predators@, self.prey@, self.params, self.next_id),
                placed_predators(self.predators@, 1, self.params),
            decreases predator_count - i,
        {
            let position = random_position(self.params.world.width, self.params.world.height);
            let predator = Predator::new(self.next_id, position, self.params.predator);
            proof {
                lemma_newborn_sound(
                    predator,
                    AgentType::Predator,
                    position,
                    self.params.predator.initial_energy,
                    self.params.predator.max_speed,
                );
            }
            self.predators.push(predator);
            self.next_id = self.next_id + 1;
            i = i + 1;
        }
        let mut j: u32 = 0;
        while j < prey_count
            invariant
                j <= prey_count,
                predator_count == self.params.predator.initial_count,
                prey_count == self.params.prey.initial_count,
                self.params == old(self).params,
                acceptable(self.params),
                self.predators@.len() == predator_count,
                self.prey@.len() == j,
                self.next_id == 1 + predator_count + j,
                sound_world(self.predators@, self.prey@, self.params, self.next_id),
                placed_predators(self.predators@, 1, self.params),
                placed_prey(self.prey@, 1 + predator_count, self.params),
            decreases prey_count - j,
        {
            let position = random_position(self.params.world.width, self.params.world.height);
            let prey = Prey::new(self.next_id, position, self.params.prey);
            proof {
                lemma_newborn_sound(
                    prey,
                    AgentType::Prey,
                    position,
                    self.params.prey.initial_energy,
                    self.params.prey.max_speed,
                );
            }
            self.prey.push(prey);
            self.next_id = self.next_id + 1;
            j = j + 1;
        }
    }

    /// Get current predator count.
    pub fn predator_count(&self) -> (count: usize)
        ensures
            count == self.predator_seq().len(),
    {
        self.predators.len()
    }

    /// Get current prey count.
    pub fn prey_count(&self) -> (count: usize)
        ensures
            count == self.prey_seq().len(),
    {
        self.prey.len()
    }

    /// Get total agent count.
    pub fn total_agents(&self) -> (count: usize)
        requires
            self.population() <= usize::MAX,
        ensures
            count == self.population(),
    {
        self.predators.len() + self.prey.len()
    }

    /// Get all predators (for visualization).
    pub fn predators(&self) -> (all: &[Predator])
        ensures
            all@ == self.predator_seq(),
    {
        self.predators.as_slice()
    }

    /// Get all prey (for visualization).
    pub fn prey(&self) -> (all: &[Prey])
        ensures
            all@ == self.prey_seq(),
    {
        self.prey.as_slice()
    }

    /// Update parameters (useful for real-time adjustment). Existing agents
    /// keep the parameters they were created with; agents created later and
    /// later ticks use the new ones.
    pub fn update_parameters(&mut self, params: Parameters)
        requires
            old(self).wf(),
            acceptable(params),
        ensures
            final(self).wf(),
            final(self).configuration() == params,
            final(self).predator_seq() == old(self).predator_seq(),
            final(self).prey_seq() == old(self).prey_seq(),
            final(self).next_id() == old(self).next_id(),
    {
        self.params = params;
    }

    /// Get current parameters.
    pub fn parameters(&self) -> (params: &Parameters)
        ensures
            *params == self.configuration(),
    {
        &self.params
    }

    /// How many ids the world can still issue.
    pub fn remaining_ids(&self) -> (left: u32)
        ensures
            left == u32::MAX - self.next_id(),
    {
        u32::MAX - self.next_id
    }

    /// Reset the world: clear all agents, issue ids from 1 again and seed the
    /// initial populations of the current parameters.
    pub fn reset(&mut self)
        requires
            old(self).wf(),
        ensures
            final(self).wf(),
            final(self).configuration() == old(self).configuration(),
            final(self).predator_seq().len() == old(self).configuration().predator.initial_count,
            final(self).prey_seq().len() == old(self).configuration().prey.initial_count,
            final(self).next_id() == 1 + old(self).configuration().predator.initial_count + old(
                self,
            ).configuration().prey.initial_count,
            placed_predators(final(self).predator_seq(), 1, old(self).configuration()),
            placed_prey(
                final(self).prey_seq(),
                1 + old(self).configuration().predator.initial_count,
                old(self).configuration(),
            ),
    {
        self.predators.clear();
        self.prey.clear();
        self.next_id = 1;
        self.initialize_agents();
    }

    /// Spawn additional predators at random positions: one after the other
    /// while the world has room, `count` at most. Returns how many were
    /// spawned. Needs an id for each of them.
    pub fn spawn_predators(&mut self, count: u32) -> (spawned: u32)
        requires
            old(self).wf(),
            old(self).next_id() + spawnable(
                count,
                old(self).population(),
                old(self).configuration().simulation.max_agents,
            ) <= u32::MAX,
        ensures
            final(self).wf(),
            final(self).configuration() == old(self).configuration(),
            spawned == spawnable(
                count,
                old(self).population(),
                old(self).configuration().simulation.max_agents,
            ),
            final(self).next_id() == old(self).next_id() + spawned,
            final(self).prey_seq() == old(self).prey_seq(),
            final(self).predator_seq().len() == old(self).predator_seq().len() + spawned,
            final(self).predator_seq().subrange(0, old(self).predator_seq().len() as int) == old(
                self,
            ).predator_seq(),
            placed_predators(
                final(self).predator_seq().subrange(
                    old(self).predator_seq().len() as int,
                    final(self).predator_seq().len() as int,
                ),
                old(self).next_id() as int,
                old(self).configuration(),
            ),
    {
        let ghost before = self.predators@;
        let ghost first_id = self.next_id;
        let max_agents = self.params.simulation.max_agents;
        let mut spawned: u32 = 0;
        while spawned < count
            invariant
                spawned <= count,
                first_id + spawnable(count, before.len() + old(self).prey@.len(), max_agents)
                    <= u32::MAX,
                self.next_id == first_id + spawned,
                self.params == old(self).params,
                max_agents == self.params.simulation.max_agents,
                self.prey@ == old(self).prey@,
                sound_world(self.predators@, self.prey@, self.params, self.next_id),
                self.predators@.len() == before.len() + spawned,
                self.predators@.subrange(0, before.len() as int) == before,
                placed_predators(
                    self.predators@.subrange(before.len() as int, self.predators@.len() as int),
                    first_id as int,
                    self.params,
                ),
                spawned <= room(before.len() + self.prey@.len(), max_agents),
            ensures
                spawned == count || spawned == room(before.len() + self.prey@.len(), max_agents),
            decreases count - spawned,
        {
            if self.predators.len() + self.prey.len() >= max_agents as usize {
                break ;
            }
            let position = random_position(self.params.world.width, self.params.world.height);
            let predator = Predator::new(self.next_id, position, self.params.predator);
            proof {
                lemma_newborn_sound(
                    predator,
                    AgentType::Predator,
                    position,
                    self.params.predator.initial_energy,
                    self.params.predator.max_speed,
                );
            }
            let ghost earlier = self.predators@.subrange(before.len() as int, self.predators@.len() as int);
            self.predators.push(predator);
            self.next_id = self.next_id + 1;
            spawned = spawned + 1;
            proof {
                let tail = self.predators@.subrange(
                    before.len() as int,
                    self.predators@.len() as int,
                );
                assert(self.predators@.subrange(0, before.len() as int) =~= before);
                assert forall|i: int| 0 <= i < tail.len() implies {
                    &&& in_world(
                        (#[trigger] tail[i]).state().position,
                        self.params.world.width,
                        self.params.world.height,
                    )
                    &&& first_id + i <= u32::MAX
                    &&& tail[i] == Predator::created(
                        (first_id + i) as u32,
                        tail[i].state().position,
                        self.params.predator,
                    )
                } by {
                    if i < tail.len() - 1 {
                        assert(tail[i] == earlier[i]);
                    }
                }
            }
        }
        spawned
    }

    /// Spawn additional prey at random positions: one after the other while
    /// the world has room, `count` at most. Returns how many were spawned.
    /// Needs an id for each of them.
    pub fn spawn_prey(&mut self, count: u32) -> (spawned: u32)
        requires
            old(self).wf(),
            old(self).next_id() + spawnable(
                count,
                old(self).population(),
                old(self).configuration().simulation.max_agents,
            ) <= u32::MAX,
        ensures
            final(self).wf(),
            final(self).configuration() == old(self).configuration(),
            spawned == spawnable(
                count,
                old(self).population(),
                old(self).configuration().simulation.max_agents,
            ),
            final(self).next_id() == old(self).next_id() + spawned,
            final(self).predator_seq() == old(self).predator_seq(),
            final(self).prey_seq().len() == old(self).prey_seq().len() + spawned,
            final(self).prey_seq().subrange(0, old(self).prey_seq().len() as int) == old(
                self,
            ).prey_seq(),
            placed_prey(
                final(self).prey_seq().subrange(
                    old(self).prey_seq().len() as int,
                    final(self).prey_seq().len() as int,
                ),
                old(self).next_id() as int,
                old(self).configuration(),
            ),
    {
        let ghost before = self.prey@;
        let ghost first_id = self.next_id;
        let max_agents = self.params.simulation.max_agents;
        let mut spawned: u32 = 0;
        while spawned < count
            invariant
                spawned <= count,
                first_id + spawnable(count, before.len() + old(self).predators@.len(), max_agents)
                    <= u32::MAX,
                self.next_id == first_id + spawned,
                self.params == old(self).params,
                max_agents == self.params.simulation.max_agents,
                self.predators@ == old(self).predators@,
                sound_world(self.predators@, self.prey@, self.params, self.next_id),
                self.prey@.len() == before.len() + spawned,
                self.prey@.subrange(0, before.len() as int) == before,
                placed_prey(
                    self.prey@.subrange(before.len() as int, self.prey@.len() as int),
                    first_id as int,
                    self.params,
                ),
                spawned <= room(before.len() + self.predators@.len(), max_agents),
            ensures
                spawned == count || spawned == room(before.len() + self.predators@.len(), max_agents),
            decreases count - spawned,
        {
            if self.predators.len() + self.prey.len() >= max_agents as usize {
                break ;
            }
            let position = random_position(self.params.world.width, self.params.world.height);
            let prey = Prey::new(self.next_id, position, self.params.prey);
            proof {
                lemma_newborn_sound(
                    prey,
                    AgentType::Prey,
                    position,
                    self.params.prey.initial_energy,
                    self.params.prey.max_speed,
                );
            }
            let ghost earlier = self.prey@.subrange(before.len() as int, self.prey@.len() as int);
            self.prey.push(prey);
            self.next_id = self.next_id + 1;
            spawned = spawned + 1;
            proof {
                let tail = self.prey@.subrange(before.len() as int, self.prey@.len() as int);
                assert(self.prey@.subrange(0, before.len() as int) =~= before);
                assert forall|i: int| 0 <= i < tail.len() implies {
                    &&& in_world(
                        (#[trigger] tail[i]).state().position,
                        self.params.world.width,
                        self.params.world.height,
                    )
                    &&& first_id + i <= u32::MAX
                    &&& tail[i] == Prey::created(
                        (first_id + i) as u32,
                        tail[i].state().position,
                        self.params.prey,
                    )
                } by {
                    if i < tail.len() - 1 {
                        assert(tail[i] == earlier[i]);
                    }
                }
            }
        }
        spawned
    }

    /// Update the world one simulation step. All agents decide on the
    /// perceptions taken at the start of the tick, predators first; then
    /// the actions are committed, the dead leave, and the ceiling on the
    /// number of agents is enforced. Where reproduction is enabled, needs an
    /// id in reserve for each agent, as each may ask for a birth.
    pub fn update(&mut self)
        requires
            old(self).wf(),
            old(self).configuration().simulation.enable_reproduction ==> old(self).next_id() + old(
                self,
            ).population() <= u32::MAX,
        ensures
            final(self).wf(),
            final(self).configuration() == old(self).configuration(),
            final(self).population() <= old(self).configuration().simulation.max_agents,
            is_tick(
                old(self).predator_seq(),
                old(self).prey_seq(),
                old(self).next_id(),
                old(self).configuration(),
                final(self).predator_seq(),
                final(self).prey_seq(),
                final(self).next_id(),
            ),
    {
        let ghost before_predators = self.predators@;
        let ghost before_prey = self.prey@;
        let snapshot = self.build_world_state();

        let mut predator_actions: Vec<(usize, AgentAction)> = Vec::new();
        let mut i: usize = 0;
        while i < self.predators.len()
            invariant
                i <= self.predators@.len(),
                self.predators@.len() == before_predators.len(),
                self.prey@ == before_prey,
                self.params == old(self).params,
                self.next_id == old(self).next_id,
                is_snapshot(snapshot.0@, snapshot.1@, before_predators, before_prey, self.params),
                predator_actions@.len() == i,
                forall|k: int| i <= k < before_predators.len() ==> self.predators@[k] == before_predators[k],
                forall|k: int|
                    0 <= k < i ==> {
                        &&& (#[trigger] predator_actions@[k]).0 == k
                        &&& predator_decided(
                            before_predators[k],
                            predator_perception(
                                before_predators[k].state().position,
                                before_prey,
                                self.params,
                            ),
                            self.predators@[k],
                            predator_actions@[k].1,
                        )
                    },
            decreases self.predators@.len() - i,
        {
            let mut predator = self.predators[i];
            let action = predator.update(&snapshot.0[i]);
            self.predators[i] = predator;
            predator_actions.push((i, action));
            i = i + 1;
        }
        let ghost decided_predators = self.predators@;

        let mut prey_actions: Vec<(usize, AgentAction)> = Vec::new();
        let mut j: usize = 0;
        while j < self.prey.len()
            invariant
                j <= self.prey@.len(),
                self.prey@.len() == before_prey.len(),
                self.predators@ == decided_predators,
                self.params == old(self).params,
                self.next_id == old(self).next_id,
                is_snapshot(snapshot.0@, snapshot.1@, before_predators, before_prey, self.params),
                prey_actions@.len() == j,
                forall|k: int| j <= k < before_prey.len() ==> self.prey@[k] == before_prey[k],
                forall|k: int|
                    0 <= k < j ==> {
                        &&& (#[trigger] prey_actions@[k]).0 == k
                        &&& prey_decided(
                            before_prey[k],
                            prey_perception(
                                before_prey[k].state().position,
                                before_predators,
                                self.params,
                            ),
                            self.prey@[k],
                            prey_actions@[k].1,
                        )
                    },
            decreases self.prey@.len() - j,
        {
            let mut prey = self.prey[j];
            let action = prey.update(&snapshot.1[j]);
            self.prey[j] = prey;
            prey_actions.push((j, action));
            j = j + 1;
        }
        let ghost decided_prey = self.prey@;
        let ghost predator_plans = predator_actions@;
        let ghost prey_plans = prey_actions@;
        assert(predators_decided(
            before_predators,
            before_prey,
            self.params,
            decided_predators,
            predator_plans,
        ));
        assert(all_prey_decided(
            before_prey,
            before_predators,
            self.params,
            decided_prey,
            prey_plans,
        ));

        proof {
            lemma_tick_sound(
                before_predators,
                before_prey,
                self.params,
                self.next_id,
                decided_predators,
                predator_plans,
                decided_prey,
                prey_plans,
            );
        }

        self.process_actions(predator_actions, prey_actions);

        self.predators = remove_dead(&self.predators);
        self.prey = remove_dead(&self.prey);

        self.enforce_max_agents();

        assert(self.predators@ == settled_predators(
            decided_predators,
            predator_plans,
            decided_prey,
            prey_plans,
            old(self).next_id,
            self.params,
        ));
    }

    /// Build the perceptions of one tick: for each predator the prey within
    /// the perception radius, for each prey the predators within the larger
    /// of the perception and the detection radius.
    pub fn build_world_state(&self) -> (snapshot: (Vec<WorldState>, Vec<WorldState>))
        ensures
            is_snapshot(
                snapshot.0@,
                snapshot.1@,
                self.predator_seq(),
                self.prey_seq(),
                self.configuration(),
            ),
    {
        let width = self.params.world.width;
        let height = self.params.world.height;
        let mut predator_views: Vec<WorldState> = Vec::new();
        let mut i: usize = 0;
        while i < self.predators.len()
            invariant
                i <= self.predators@.len(),
                width == self.params.world.width,
                height == self.params.world.height,
                predator_views@.len() == i,
                forall|k: int|
                    0 <= k < i ==> (#[trigger] predator_views@[k])@ == predator_perception(
                        self.predators@[k].state().position,
                        self.prey@,
                        self.params,
                    ),
            decreases self.predators@.len() - i,
        {
            let nearby_prey = perceive(
                self.predators[i].position(),
                &self.prey,
                width,
                height,
                self.params.predator.perception_radius,
            );
            predator_views.push(
                WorldState {
                    width,
                    height,
                    boundary_type: self.params.world.boundary_type,
                    nearby_predators: Vec::new(),
                    nearby_prey,
                    dt: self.params.simulation.dt,
                },
            );
            i = i + 1;
        }
        let reach = self.params.predator.perception_radius.max(self.params.prey.detection_radius);
        let mut prey_views: Vec<WorldState> = Vec::new();
        let mut j: usize = 0;
        while j < self.prey.len()
            invariant
                j <= self.prey@.len(),
                width == self.params.world.width,
                height == self.params.world.height,
                reach == self.params.predator.perception_radius.larger(
                    self.params.prey.detection_radius,
                ),
                prey_views@.len() == j,
                forall|k: int|
                    0 <= k < j ==> (#[trigger] prey_views@[k])@ == prey_perception(
                        self.prey@[k].state().position,
                        self.predators@,
                        self.params,
                    ),
            decreases self.prey@.len() - j,
        {
            let nearby_predators = perceive(
                self.prey[j].position(),
                &self.predators,
                width,
                height,
                reach,
            );
            prey_views.push(
                WorldState {
                    width,
                    height,
                    boundary_type: self.params.world.boundary_type,
                    nearby_predators,
                    nearby_prey: Vec::new(),
                    dt: self.params.simulation.dt,
                },
            );
            j = j + 1;
        }
        (predator_views, prey_views)
    }

    /// Process agent actions: prey that a predator consumed leave, and for
    /// each birth asked for, where reproduction is enabled, a new agent of
    /// the same species is created at the site and with the energy asked
    /// for, with the next id and the current parameters. Needs an id for each
    /// of the newborn. The world stays sound where every birth asks for
    /// positive energy.
    pub fn process_actions(
        &mut self,
        predator_actions: Vec<(usize, AgentAction)>,
        prey_actions: Vec<(usize, AgentAction)>,
    )
        requires
            committed_next_id(
                predator_actions@,
                prey_actions@,
                old(self).next_id(),
                old(self).configuration(),
            ) <= u32::MAX,
        ensures
            final(self).configuration() == old(self).configuration(),
            final(self).predator_seq() == committed_predators(
                old(self).predator_seq(),
                predator_actions@,
                old(self).next_id(),
                old(self).configuration(),
            ),
            final(self).prey_seq() == committed_prey(
                old(self).prey_seq(),
                predator_actions@,
                prey_actions@,
                old(self).next_id(),
                old(self).configuration(),
            ),
            final(self).next_id() == committed_next_id(
                predator_actions@,
                prey_actions@,
                old(self).next_id(),
                old(self).configuration(),
            ),
            old(self).wf() && old(self).population() + predator_actions@.len() + prey_actions@.len()
                <= u32::MAX && viable(
                granted_births(predator_actions@, old(self).configuration()),
            ) && viable(granted_births(prey_actions@, old(self).configuration()))
                ==> final(self).wf(),
    {
        proof {
            if self.wf() {
                lemma_commit_ranked(
                    self.predators@,
                    self.prey@,
                    self.params,
                    self.next_id,
                    predator_actions@,
                    prey_actions@,
                );
            }
        }
        let ghost first_id = self.next_id;
        let enabled = self.params.simulation.enable_reproduction;
        let consumed_prey_ids = collect_consumed(&predator_actions);
        let mut new_predators: Vec<Predator> = Vec::new();
        let mut i: usize = 0;
        while i < predator_actions.len()
            invariant
                i <= predator_actions.len(),
                self.params == old(self).params,
                self.predators == old(self).predators,
                self.prey == old(self).prey,
                enabled == self.params.simulation.enable_reproduction,
                committed_next_id(predator_actions@, prey_actions@, first_id, self.params)
                    <= u32::MAX,
                new_predators@.len() <= i,
                self.next_id == first_id + new_predators@.len(),
                new_predators@ == born_predators(
                    granted_births(predator_actions@.take(i as int), self.params),
                    first_id as int,
                    self.params.predator,
                ),
            decreases predator_actions.len() - i,
        {
            proof {
                let grown = predator_actions@.take(i + 1);
                assert(grown.drop_last() == predator_actions@.take(i as int));
                assert(grown.last() == predator_actions@[i as int]);
                lemma_births_of_prefix(predator_actions@, i + 1);
            }
            match predator_actions[i].1 {
                AgentAction::Reproduce { position, energy } => {
                    if enabled {
                        let new_predator = Predator::born(
                            self.next_id,
                            position,
                            energy,
                            self.params.predator,
                        );
                        new_predators.push(new_predator);
                        self.next_id = self.next_id + 1;
                    }
                },
                _ => {},
            }
            i = i + 1;
        }
        assert(predator_actions@.take(predator_actions.len() as int) == predator_actions@);
        let ghost middle_id = self.next_id;
        let mut new_prey: Vec<Prey> = Vec::new();
        let mut j: usize = 0;
        while j < prey_actions.len()
            invariant
                j <= prey_actions.len(),
                self.params == old(self).params,
                self.predators == old(self).predators,
                self.prey == old(self).prey,
                enabled == self.params.simulation.enable_reproduction,
                middle_id + granted_births(prey_actions@, self.params).len() <= u32::MAX,
                new_prey@.len() <= j,
                self.next_id == middle_id + new_prey@.len(),
                new_prey@ == born_prey(
                    granted_births(prey_actions@.take(j as int), self.params),
                    middle_id as int,
                    self.params.prey,
                ),
            decreases prey_actions.len() - j,
        {
            proof {
                let grown = prey_actions@.take(j + 1);
                assert(grown.drop_last() == prey_actions@.take(j as int));
                assert(grown.last() == prey_actions@[j as int]);
                lemma_births_of_prefix(prey_actions@, j + 1);
            }
            match prey_actions[j].1 {
                AgentAction::Reproduce { position, energy } => {
                    if enabled {
                        let new_prey_agent = Prey::born(
                            self.next_id,
                            position,
                            energy,
                            self.params.prey,
                        );
                        new_prey.push(new_prey_agent);
                        self.next_id = self.next_id + 1;
                    }
                },
                _ => {},
            }
            j = j + 1;
        }
        assert(prey_actions@.take(prey_actions.len() as int) == prey_actions@);

        self.prey = remove_consumed(&self.prey, &consumed_prey_ids);

        self.predators.append(&mut new_predators);
        self.prey.append(&mut new_prey);
    }

    /// Enforce maximum agent limit: where the populations exceed the
    /// ceiling, the oldest predators leave first, then the oldest prey.
    pub fn enforce_max_agents(&mut self)
        ensures
            final(self).configuration() == old(self).configuration(),
            final(self).next_id() == old(self).next_id(),
            final(self).predator_seq() == old(self).predator_seq().skip(
                predator_cut(
                    old(self).predator_seq().len(),
                    old(self).prey_seq().len(),
                    old(self).configuration().simulation.max_agents,
                ) as int,
            ),
            final(self).prey_seq() == old(self).prey_seq().skip(
                prey_cut(
                    old(self).predator_seq().len(),
                    old(self).prey_seq().len(),
                    old(self).configuration().simulation.max_agents,
                ) as int,
            ),
            final(self).population() <= old(self).configuration().simulation.max_agents,
            old(self).wf() ==> final(self).wf(),
    {
        proof {
            lemma_cuts(
                self.predators@.len(),
                self.prey@.len(),
                self.params.simulation.max_agents,
            );
            if self.wf() {
                let first = predator_cut(
                    self.predators@.len(),
                    self.prey@.len(),
                    self.params.simulation.max_agents,
                );
                let second = prey_cut(
                    self.predators@.len(),
                    self.prey@.len(),
                    self.params.simulation.max_agents,
                );
                lemma_skip_sound(self.predators@, first as int, AgentType::Predator, self.next_id);
                lemma_skip_sound(self.prey@, second as int, AgentType::Prey, self.next_id);
                lemma_drawn_disjoint(
                    self.predators@.skip(first as int),
                    self.predators@,
                    self.prey@.skip(second as int),
                    self.prey@,
                );
            }
        }
        let cuts = capacity_cuts(
            self.predators.len(),
            self.prey.len(),
            self.params.simulation.max_agents,
        );
        if cuts.0 > 0 {
            let kept = self.predators.split_off(cuts.0);
            self.predators = kept;
        }
        if cuts.1 > 0 {
            let kept = self.prey.split_off(cuts.1);
            self.prey = kept;
        }
    }

    /// Get average energy for predators (zero where there are none).
    pub fn average_predator_energy(&self) -> (mean: Scalar)
        ensures
            mean == average_energy(self.predator_seq()),
    {
        mean_energy(&self.predators)
    }

    /// Get average energy for prey (zero where there are none).
    pub fn average_prey_energy(&self) -> (mean: Scalar)
        ensures
            mean == average_energy(self.prey_seq()),
    {
        mean_energy(&self.prey)
    }

    /// Clear all agents. Ids that were issued are not issued again.
    pub fn clear_all(&mut self)
        requires
            old(self).wf(),
        ensures
            final(self).wf(),
            final(self).predator_seq().len() == 0,
            final(self).prey_seq().len() == 0,
            final(self).configuration() == old(self).configuration(),
            final(self).next_id() == old(self).next_id(),
    {
        self.predators.clear();
        self.prey.clear();
    }
}

} // verus!
