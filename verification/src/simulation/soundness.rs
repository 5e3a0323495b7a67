//! Why every tick leaves the world sound: agents alive and within their
//! speed, ids unique, the ceiling kept.

use vstd::prelude::*;
use crate::config::parameters::Parameters;
use crate::simulation::agent::{Agent, AgentAction, AgentId, AgentType, BaseAgent, Perception,
    newborn};
use crate::simulation::perception::{predator_perception, prey_perception};
use crate::simulation::predator::{Predator, predator_decided};
use crate::simulation::prey::{Prey, prey_decided};
use crate::simulation::tick::{all_prey_decided, is_tick, birth_requests, born_predators, born_prey,
    committed_next_id, committed_predators, committed_prey, consumed_ids, granted_births, lemma_cuts,
    viable,
    living, predator_cut, predators_decided, prey_cut, settled_predators, settled_prey, uneaten};
use crate::utils::fixed::Scalar;
use crate::utils::math::{Vector2, lemma_zero_length};

verus! {

broadcast use {Predator::lemma_of, Prey::lemma_of};

/// What holds of a member of a population at any moment of a tick: it is of
/// the population's kind, no faster than its positive maximum speed, has an
/// id that was issued, and asks for offspring of positive energy.
pub open spec fn standing<A: Agent>(agent: A, kind: AgentType, next_id: AgentId) -> bool {
    &&& 1 <= agent.state().id < next_id
    &&& agent.state().agent_type == kind
    &&& agent.state().max_speed@ > 0
    &&& agent.state().within_speed()
    &&& agent.endowment()@ > 0
}

/// A member of a population in good standing between two ticks: it is
/// alive besides.
pub open spec fn sound_member<A: Agent>(agent: A, kind: AgentType, next_id: AgentId) -> bool {
    &&& standing(agent, kind, next_id)
    &&& agent.state().alive()
}

/// Every member has its standing, and ids grow along the population.
pub open spec fn ranked<A: Agent>(population: Seq<A>, kind: AgentType, next_id: AgentId) -> bool {
    &&& forall|i: int|
        0 <= i < population.len() ==> standing(#[trigger] population[i], kind, next_id)
    &&& ids_increasing(population)
}

/// Every member of `part` is a member of `whole`.
pub open spec fn drawn_from<A>(part: Seq<A>, whole: Seq<A>) -> bool {
    forall|k: int| 0 <= k < part.len() ==> whole.contains(#[trigger] part[k])
}

/// Ids grow along the population: no id occurs twice, and an older agent
/// stands before a younger one.
pub open spec fn ids_increasing<A: Agent>(population: Seq<A>) -> bool {
    forall|i: int, j: int|
        0 <= i < j < population.len() ==> (#[trigger] population[i]).state().id < (
        #[trigger] population[j]).state().id
}

/// Every member of the population is in good standing, and ids grow along it.
pub open spec fn sound_population<A: Agent>(population: Seq<A>, kind: AgentType, next_id: AgentId)
    -> bool {
    &&& forall|i: int|
        0 <= i < population.len() ==> sound_member(
            #[trigger] population[i],
            kind,
            next_id,
        )
    &&& ids_increasing(population)
}

/// No predator has the id of a prey.
pub open spec fn disjoint_ids(predators: Seq<Predator>, prey: Seq<Prey>) -> bool {
    forall|i: int, j: int|
        0 <= i < predators.len() && 0 <= j < prey.len() ==> (#[trigger] predators[i]).state().id != (
        #[trigger] prey[j]).state().id
}

/// Parameters that a world accepts: valid ones whose initial populations
/// can all be given an id.
pub open spec fn acceptable(params: Parameters) -> bool {
    &&& params.is_valid()
    &&& params.predator.initial_count + params.prey.initial_count < u32::MAX
}

/// The state of a world between two operations.
pub open spec fn sound_world(
    predators: Seq<Predator>,
    prey: Seq<Prey>,
    params: Parameters,
    next_id: AgentId,
) -> bool {
    &&& acceptable(params)
    &&& next_id >= 1
    &&& predators.len() + prey.len() <= u32::MAX
    &&& sound_population(predators, AgentType::Predator, next_id)
    &&& sound_population(prey, AgentType::Prey, next_id)
    &&& disjoint_ids(predators, prey)
}

/// A newborn with a positive maximum speed that asks for offspring of
/// positive energy has its standing; with positive energy of its own it is
/// in good standing.
pub proof fn lemma_newborn_sound<A: Agent>(
    agent: A,
    kind: AgentType,
    position: Vector2,
    energy: Scalar,
    max_speed: Scalar,
)
    requires
        agent.state() == newborn(agent.state().id, kind, position, energy, max_speed),
        1 <= agent.state().id < u32::MAX,
        max_speed@ > 0,
        agent.endowment()@ > 0,
    ensures
        standing(agent, kind, (agent.state().id + 1) as u32),
        energy@ > 0 ==> sound_member(agent, kind, (agent.state().id + 1) as u32),
{
    lemma_zero_length(agent.state().velocity);
}

/// The living members of a ranked population are a sound population drawn
/// from it.
pub proof fn lemma_living_sound<A: Agent>(population: Seq<A>, kind: AgentType, next_id: AgentId)
    requires
        ranked(population, kind, next_id),
    ensures
        sound_population(living(population), kind, next_id),
        drawn_from(living(population), population),
        living(population).len() <= population.len(),
    decreases population.len(),
{
    if population.len() > 0 {
        let front = population.drop_last();
        assert(forall|i: int| 0 <= i < front.len() ==> front[i] == population[i]);
        lemma_living_sound(front, kind, next_id);
        let rest = living(front);
        let kept = living(population);
        assert forall|k: int| 0 <= k < kept.len() implies population.contains(
            #[trigger] kept[k],
        ) by {
            if k < rest.len() {
                assert(front.contains(rest[k]));
                let m = choose|m: int| 0 <= m < front.len() && front[m] == rest[k];
                assert(population[m] == kept[k]);
            } else {
                assert(population[population.len() - 1] == kept[k]);
            }
        }
        assert forall|i: int, j: int| 0 <= i < j < kept.len() implies (#[trigger] kept[i]).state().id
            < (#[trigger] kept[j]).state().id by {
            if j == rest.len() {
                assert(front.contains(rest[i]));
                let m = choose|m: int| 0 <= m < front.len() && front[m] == rest[i];
                assert(population[m] == kept[i]);
                assert(kept[j] == population[population.len() - 1]);
            } else {
                assert(kept[i] == rest[i] && kept[j] == rest[j]);
            }
        }
        assert forall|i: int| 0 <= i < kept.len() implies sound_member(
            #[trigger] kept[i],
            kind,
            next_id,
        ) by {
            if i < rest.len() {
                assert(kept[i] == rest[i]);
            } else {
                assert(kept[i] == population[population.len() - 1]);
            }
        }
    }
}

/// The prey that were not consumed are a ranked population drawn from the
/// prey.
pub proof fn lemma_uneaten_ranked(prey: Seq<Prey>, eaten: Seq<AgentId>, next_id: AgentId)
    requires
        ranked(prey, AgentType::Prey, next_id),
    ensures
        ranked(uneaten(prey, eaten), AgentType::Prey, next_id),
        drawn_from(uneaten(prey, eaten), prey),
        uneaten(prey, eaten).len() <= prey.len(),
    decreases prey.len(),
{
    if prey.len() > 0 {
        let front = prey.drop_last();
        assert(forall|i: int| 0 <= i < front.len() ==> front[i] == prey[i]);
        lemma_uneaten_ranked(front, eaten, next_id);
        let rest = uneaten(front, eaten);
        let kept = uneaten(prey, eaten);
        assert forall|k: int| 0 <= k < kept.len() implies prey.contains(#[trigger] kept[k]) by {
            if k < rest.len() {
                assert(front.contains(rest[k]));
                let m = choose|m: int| 0 <= m < front.len() && front[m] == rest[k];
                assert(prey[m] == kept[k]);
            } else {
                assert(prey[prey.len() - 1] == kept[k]);
            }
        }
        assert forall|i: int, j: int| 0 <= i < j < kept.len() implies (#[trigger] kept[i]).state().id
            < (#[trigger] kept[j]).state().id by {
            if j == rest.len() {
                assert(front.contains(rest[i]));
                let m = choose|m: int| 0 <= m < front.len() && front[m] == rest[i];
                assert(prey[m] == kept[i]);
                assert(kept[j] == prey[prey.len() - 1]);
            } else {
                assert(kept[i] == rest[i] && kept[j] == rest[j]);
            }
        }
        assert forall|i: int| 0 <= i < kept.len() implies standing(
            #[trigger] kept[i],
            AgentType::Prey,
            next_id,
        ) by {
            if i < rest.len() {
                assert(kept[i] == rest[i]);
            } else {
                assert(kept[i] == prey[prey.len() - 1]);
            }
        }
    }
}

/// A sound population from which the oldest `cut` members left is a sound
/// population drawn from it.
pub proof fn lemma_skip_sound<A: Agent>(
    population: Seq<A>,
    cut: int,
    kind: AgentType,
    next_id: AgentId,
)
    requires
        sound_population(population, kind, next_id),
        0 <= cut <= population.len(),
    ensures
        sound_population(population.skip(cut), kind, next_id),
        drawn_from(population.skip(cut), population),
{
    let kept = population.skip(cut);
    assert forall|k: int| 0 <= k < kept.len() implies population.contains(#[trigger] kept[k]) by {
        assert(population[k + cut] == kept[k]);
    }
    assert forall|i: int| 0 <= i < kept.len() implies sound_member(
        #[trigger] kept[i],
        kind,
        next_id,
    ) by {
        assert(population[i + cut] == kept[i]);
    }
    assert forall|i: int, j: int| 0 <= i < j < kept.len() implies (#[trigger] kept[i]).state().id < (
    #[trigger] kept[j]).state().id by {
        assert(population[i + cut] == kept[i]);
        assert(population[j + cut] == kept[j]);
    }
}

/// Populations drawn from populations with no id in common have no id in
/// common.
pub proof fn lemma_drawn_disjoint(
    part_predators: Seq<Predator>,
    predators: Seq<Predator>,
    part_prey: Seq<Prey>,
    prey: Seq<Prey>,
)
    requires
        disjoint_ids(predators, prey),
        drawn_from(part_predators, predators),
        drawn_from(part_prey, prey),
    ensures
        disjoint_ids(part_predators, part_prey),
{
    assert forall|i: int, j: int|
        0 <= i < part_predators.len() && 0 <= j < part_prey.len() implies (
    #[trigger] part_predators[i]).state().id != (#[trigger] part_prey[j]).state().id by {
        assert(predators.contains(part_predators[i]));
        assert(prey.contains(part_prey[j]));
        let m = choose|m: int| 0 <= m < predators.len() && predators[m] == part_predators[i];
        let n = choose|n: int| 0 <= n < prey.len() && prey[n] == part_prey[j];
        assert(predators[m].state().id != prey[n].state().id);
    }
}

/// A predator keeps its id and its standing over a tick.
pub proof fn lemma_predator_keeps_standing(
    before: Predator,
    seen: Perception,
    after: Predator,
    action: AgentAction,
    next_id: AgentId,
)
    requires
        predator_decided(before, seen, after, action),
        standing(before, AgentType::Predator, next_id),
    ensures
        standing(after, AgentType::Predator, next_id),
        after.state().id == before.state().id,
{
    crate::simulation::predator::lemma_predator_bounds(before.state(), before.parameters(), seen);
}

/// A prey keeps its id and its standing over a tick.
pub proof fn lemma_prey_keeps_standing(
    before: Prey,
    seen: Perception,
    after: Prey,
    action: AgentAction,
    next_id: AgentId,
)
    requires
        prey_decided(before, seen, after, action),
        standing(before, AgentType::Prey, next_id),
    ensures
        standing(after, AgentType::Prey, next_id),
        after.state().id == before.state().id,
{
    let escape = choose|escape: Vector2|
        {
            &&& crate::utils::random::is_random_direction(escape, before.state().max_speed)
            &&& after.state() == #[trigger] crate::simulation::prey::prey_next(
                before.state(),
                before.parameters(),
                seen,
                escape,
            )
            &&& crate::simulation::agent::realizes(
                action,
                crate::simulation::prey::prey_plan(
                    before.state(),
                    before.parameters(),
                    seen,
                    escape,
                ),
                seen.width,
                seen.height,
            )
        };
    crate::simulation::prey::lemma_prey_bounds(
        before.state(),
        before.parameters(),
        seen,
        escape,
    );
}

/// Committing actions keeps populations ranked and their ids apart: the
/// newborn have their standing and get ids that no agent had; and where all
/// were alive before and every birth asks for positive energy, all are alive
/// after.
pub proof fn lemma_commit_ranked(
    predators: Seq<Predator>,
    prey: Seq<Prey>,
    params: Parameters,
    next_id: AgentId,
    predator_actions: Seq<(usize, AgentAction)>,
    prey_actions: Seq<(usize, AgentAction)>,
)
    requires
        acceptable(params),
        next_id >= 1,
        committed_next_id(predator_actions, prey_actions, next_id, params) <= u32::MAX,
        ranked(predators, AgentType::Predator, next_id),
        ranked(prey, AgentType::Prey, next_id),
        disjoint_ids(predators, prey),
    ensures
        next_id <= committed_next_id(predator_actions, prey_actions, next_id, params) <= u32::MAX,
        ranked(
            committed_predators(predators, predator_actions, next_id, params),
            AgentType::Predator,
            committed_next_id(predator_actions, prey_actions, next_id, params) as u32,
        ),
        ranked(
            committed_prey(prey, predator_actions, prey_actions, next_id, params),
            AgentType::Prey,
            committed_next_id(predator_actions, prey_actions, next_id, params) as u32,
        ),
        disjoint_ids(
            committed_predators(predators, predator_actions, next_id, params),
            committed_prey(prey, predator_actions, prey_actions, next_id, params),
        ),
        committed_predators(predators, predator_actions, next_id, params).len() <= predators.len()
            + predator_actions.len(),
        committed_prey(prey, predator_actions, prey_actions, next_id, params).len() <= prey.len()
            + prey_actions.len(),
        sound_population(predators, AgentType::Predator, next_id) && viable(
            granted_births(predator_actions, params),
        ) ==> sound_population(
            committed_predators(predators, predator_actions, next_id, params),
            AgentType::Predator,
            committed_next_id(predator_actions, prey_actions, next_id, params) as u32,
        ),
        sound_population(prey, AgentType::Prey, next_id) && viable(
            granted_births(prey_actions, params),
        ) ==> sound_population(
            committed_prey(prey, predator_actions, prey_actions, next_id, params),
            AgentType::Prey,
            committed_next_id(predator_actions, prey_actions, next_id, params) as u32,
        ),
{
    lemma_birth_count(predator_actions);
    lemma_birth_count(prey_actions);
    let predator_births = granted_births(predator_actions, params);
    let prey_births = granted_births(prey_actions, params);
    let middle_id = next_id + predator_births.len();
    let last_id = (middle_id + prey_births.len()) as u32;
    let newborn_predators = born_predators(predator_births, next_id as int, params.predator);
    let newborn_prey = born_prey(prey_births, middle_id, params.prey);
    let all_predators = committed_predators(predators, predator_actions, next_id, params);
    let left_prey = uneaten(prey, consumed_ids(predator_actions));
    let all_prey = committed_prey(prey, predator_actions, prey_actions, next_id, params);

    lemma_uneaten_ranked(prey, consumed_ids(predator_actions), next_id);

    assert forall|i: int| 0 <= i < newborn_predators.len() implies standing(
        #[trigger] newborn_predators[i],
        AgentType::Predator,
        last_id,
    ) && newborn_predators[i].state().id == next_id + i && (viable(predator_births)
        ==> newborn_predators[i].state().alive()) by {
        lemma_newborn_sound(
            newborn_predators[i],
            AgentType::Predator,
            predator_births[i].0,
            predator_births[i].1,
            params.predator.max_speed,
        );
    }
    assert forall|i: int| 0 <= i < newborn_prey.len() implies standing(
        #[trigger] newborn_prey[i],
        AgentType::Prey,
        last_id,
    ) && newborn_prey[i].state().id == middle_id + i && (viable(prey_births)
        ==> newborn_prey[i].state().alive()) by {
        lemma_newborn_sound(
            newborn_prey[i],
            AgentType::Prey,
            prey_births[i].0,
            prey_births[i].1,
            params.prey.max_speed,
        );
    }

    assert forall|i: int| 0 <= i < all_predators.len() implies standing(
        #[trigger] all_predators[i],
        AgentType::Predator,
        last_id,
    ) && (sound_population(predators, AgentType::Predator, next_id) && viable(predator_births)
        ==> all_predators[i].state().alive()) by {
        if i < predators.len() {
            assert(all_predators[i] == predators[i]);
        } else {
            assert(all_predators[i] == newborn_predators[i - predators.len()]);
        }
    }
    assert forall|i: int, j: int| 0 <= i < j < all_predators.len() implies (
    #[trigger] all_predators[i]).state().id < (#[trigger] all_predators[j]).state().id by {
        if i < predators.len() {
            assert(all_predators[i] == predators[i]);
        } else {
            assert(all_predators[i] == newborn_predators[i - predators.len()]);
        }
        if j < predators.len() {
            assert(all_predators[j] == predators[j]);
        } else {
            assert(all_predators[j] == newborn_predators[j - predators.len()]);
        }
    }
    assert forall|i: int| 0 <= i < all_prey.len() implies standing(
        #[trigger] all_prey[i],
        AgentType::Prey,
        last_id,
    ) && (sound_population(prey, AgentType::Prey, next_id) && viable(prey_births)
        ==> all_prey[i].state().alive()) by {
        if i < left_prey.len() {
            assert(all_prey[i] == left_prey[i]);
            assert(prey.contains(left_prey[i]));
            let n = choose|n: int| 0 <= n < prey.len() && prey[n] == left_prey[i];
            assert(prey[n] == all_prey[i]);
        } else {
            assert(all_prey[i] == newborn_prey[i - left_prey.len()]);
        }
    }
    assert forall|i: int, j: int| 0 <= i < j < all_prey.len() implies (
    #[trigger] all_prey[i]).state().id < (#[trigger] all_prey[j]).state().id by {
        if i < left_prey.len() {
            assert(all_prey[i] == left_prey[i]);
        } else {
            assert(all_prey[i] == newborn_prey[i - left_prey.len()]);
        }
        if j < left_prey.len() {
            assert(all_prey[j] == left_prey[j]);
        } else {
            assert(all_prey[j] == newborn_prey[j - left_prey.len()]);
        }
    }
    assert forall|i: int, j: int|
        0 <= i < all_predators.len() && 0 <= j < all_prey.len() implies (
    #[trigger] all_predators[i]).state().id != (#[trigger] all_prey[j]).state().id by {
        if i < predators.len() {
            assert(all_predators[i] == predators[i]);
        } else {
            assert(all_predators[i] == newborn_predators[i - predators.len()]);
        }
        if j < left_prey.len() {
            assert(all_prey[j] == left_prey[j]);
            assert(prey.contains(left_prey[j]));
            let n = choose|n: int| 0 <= n < prey.len() && prey[n] == left_prey[j];
            if i < predators.len() {
                assert(predators[i].state().id != prey[n].state().id);
            }
        } else {
            assert(all_prey[j] == newborn_prey[j - left_prey.len()]);
        }
    }
}

/// Once the dead have left and the ceiling is enforced, ranked populations
/// with ids apart make a sound world.
pub proof fn lemma_cull_and_cap_sound(
    predators: Seq<Predator>,
    prey: Seq<Prey>,
    params: Parameters,
    next_id: AgentId,
)
    requires
        acceptable(params),
        next_id >= 1,
        ranked(predators, AgentType::Predator, next_id),
        ranked(prey, AgentType::Prey, next_id),
        disjoint_ids(predators, prey),
    ensures
        sound_world(
            living(predators).skip(
                predator_cut(
                    living(predators).len(),
                    living(prey).len(),
                    params.simulation.max_agents,
                ) as int,
            ),
            living(prey).skip(
                prey_cut(living(predators).len(), living(prey).len(), params.simulation.max_agents) as int,
            ),
            params,
            next_id,
        ),
{
    lemma_living_sound(predators, AgentType::Predator, next_id);
    lemma_living_sound(prey, AgentType::Prey, next_id);
    let alive_predators = living(predators);
    let alive_prey = living(prey);
    lemma_drawn_disjoint(alive_predators, predators, alive_prey, prey);
    lemma_cuts(alive_predators.len(), alive_prey.len(), params.simulation.max_agents);
    let first = predator_cut(alive_predators.len(), alive_prey.len(), params.simulation.max_agents);
    let second = prey_cut(alive_predators.len(), alive_prey.len(), params.simulation.max_agents);
    lemma_skip_sound(alive_predators, first as int, AgentType::Predator, next_id);
    lemma_skip_sound(alive_prey, second as int, AgentType::Prey, next_id);
    lemma_drawn_disjoint(
        alive_predators.skip(first as int),
        alive_predators,
        alive_prey.skip(second as int),
        alive_prey,
    );
}

/// The agents keep their ids and their standing over the decisions of a
/// tick.
pub proof fn lemma_decisions_ranked(
    before_predators: Seq<Predator>,
    before_prey: Seq<Prey>,
    params: Parameters,
    next_id: AgentId,
    predators: Seq<Predator>,
    predator_actions: Seq<(usize, AgentAction)>,
    prey: Seq<Prey>,
    prey_actions: Seq<(usize, AgentAction)>,
)
    requires
        ranked(before_predators, AgentType::Predator, next_id),
        ranked(before_prey, AgentType::Prey, next_id),
        disjoint_ids(before_predators, before_prey),
        predators_decided(before_predators, before_prey, params, predators, predator_actions),
        all_prey_decided(before_prey, before_predators, params, prey, prey_actions),
    ensures
        ranked(predators, AgentType::Predator, next_id),
        ranked(prey, AgentType::Prey, next_id),
        disjoint_ids(predators, prey),
{
    assert forall|i: int| 0 <= i < predators.len() implies standing(
        #[trigger] predators[i],
        AgentType::Predator,
        next_id,
    ) && predators[i].state().id == before_predators[i].state().id by {
        lemma_predator_keeps_standing(
            before_predators[i],
            predator_perception(before_predators[i].state().position, before_prey, params),
            predators[i],
            predator_actions[i].1,
            next_id,
        );
    }
    assert forall|j: int| 0 <= j < prey.len() implies standing(
        #[trigger] prey[j],
        AgentType::Prey,
        next_id,
    ) && prey[j].state().id == before_prey[j].state().id by {
        lemma_prey_keeps_standing(
            before_prey[j],
            prey_perception(before_prey[j].state().position, before_predators, params),
            prey[j],
            prey_actions[j].1,
            next_id,
        );
    }
    assert forall|i: int, j: int| 0 <= i < j < predators.len() implies (
    #[trigger] predators[i]).state().id < (#[trigger] predators[j]).state().id by {
        assert(before_predators[i].state().id < before_predators[j].state().id);
    }
    assert forall|i: int, j: int| 0 <= i < j < prey.len() implies (#[trigger] prey[i]).state().id
        < (#[trigger] prey[j]).state().id by {
        assert(before_prey[i].state().id < before_prey[j].state().id);
    }
    assert forall|i: int, j: int| 0 <= i < predators.len() && 0 <= j < prey.len() implies (
    #[trigger] predators[i]).state().id != (#[trigger] prey[j]).state().id by {
        assert(before_predators[i].state().id != before_prey[j].state().id);
    }
}

/// At the end of a tick the world is sound again: the survivors are alive,
/// in their standing, and no two agents have the same id.
pub proof fn lemma_tick_sound(
    before_predators: Seq<Predator>,
    before_prey: Seq<Prey>,
    params: Parameters,
    next_id: AgentId,
    predators: Seq<Predator>,
    predator_actions: Seq<(usize, AgentAction)>,
    prey: Seq<Prey>,
    prey_actions: Seq<(usize, AgentAction)>,
)
    requires
        sound_world(before_predators, before_prey, params, next_id),
        params.simulation.enable_reproduction ==> next_id + before_predators.len()
            + before_prey.len() <= u32::MAX,
        predators_decided(before_predators, before_prey, params, predators, predator_actions),
        all_prey_decided(before_prey, before_predators, params, prey, prey_actions),
    ensures
        committed_next_id(predator_actions, prey_actions, next_id, params) <= u32::MAX,
        sound_world(
            settled_predators(predators, predator_actions, prey, prey_actions, next_id, params),
            settled_prey(predators, predator_actions, prey, prey_actions, next_id, params),
            params,
            committed_next_id(predator_actions, prey_actions, next_id, params) as u32,
        ),
{
    lemma_decisions_ranked(
        before_predators,
        before_prey,
        params,
        next_id,
        predators,
        predator_actions,
        prey,
        prey_actions,
    );
    lemma_birth_count(predator_actions);
    lemma_birth_count(prey_actions);
    lemma_commit_ranked(predators, prey, params, next_id, predator_actions, prey_actions);
    lemma_cull_and_cap_sound(
        committed_predators(predators, predator_actions, next_id, params),
        committed_prey(prey, predator_actions, prey_actions, next_id, params),
        params,
        committed_next_id(predator_actions, prey_actions, next_id, params) as u32,
    );
}

/// Actions that ask for no birth give no birth site.
pub proof fn lemma_no_births(actions: Seq<(usize, AgentAction)>)
    requires
        forall|k: int| 0 <= k < actions.len() ==> !((#[trigger] actions[k]).1 is Reproduce),
    ensures
        birth_requests(actions).len() == 0,
    decreases actions.len(),
{
    if actions.len() > 0 {
        let front = actions.drop_last();
        assert(forall|k: int| 0 <= k < front.len() ==> front[k] == actions[k]);
        lemma_no_births(front);
        assert(actions.last() == actions[actions.len() - 1]);
    }
}

/// Of a population of the dead none is living.
pub proof fn lemma_none_living<A: Agent>(population: Seq<A>)
    requires
        forall|i: int| 0 <= i < population.len() ==> !(#[trigger] population[i]).state().alive(),
    ensures
        living(population).len() == 0,
    decreases population.len(),
{
    if population.len() > 0 {
        let front = population.drop_last();
        assert(forall|i: int| 0 <= i < front.len() ==> front[i] == population[i]);
        lemma_none_living(front);
        assert(population.last() == population[population.len() - 1]);
    }
}

/// Every member of the living is alive.
pub proof fn lemma_living_alive<A: Agent>(population: Seq<A>)
    ensures
        forall|i: int|
            0 <= i < living(population).len() ==> (#[trigger] living(population)[i]).state().alive(),
    decreases population.len(),
{
    if population.len() > 0 {
        let front = population.drop_last();
        lemma_living_alive(front);
        let rest = living(front);
        let kept = living(population);
        assert forall|i: int| 0 <= i < kept.len() implies (#[trigger] kept[i]).state().alive() by {
            if i < rest.len() {
                assert(kept[i] == rest[i]);
            }
        }
    }
}

/// After a tick, whatever the populations were before it, the number of
/// agents is within the ceiling and every agent is alive: one whose energy
/// reached zero in the tick is gone.
pub proof fn lemma_tick_ceiling_and_cull(
    before_predators: Seq<Predator>,
    before_prey: Seq<Prey>,
    before_next_id: AgentId,
    params: Parameters,
    after_predators: Seq<Predator>,
    after_prey: Seq<Prey>,
    after_next_id: AgentId,
)
    requires
        is_tick(
            before_predators,
            before_prey,
            before_next_id,
            params,
            after_predators,
            after_prey,
            after_next_id,
        ),
    ensures
        after_predators.len() + after_prey.len() <= params.simulation.max_agents,
        forall|i: int|
            0 <= i < after_predators.len() ==> (#[trigger] after_predators[i]).state().alive(),
        forall|j: int| 0 <= j < after_prey.len() ==> (#[trigger] after_prey[j]).state().alive(),
{
    let (predators, predator_actions, prey, prey_actions) = choose|
        predators: Seq<Predator>,
        predator_actions: Seq<(usize, AgentAction)>,
        prey: Seq<Prey>,
        prey_actions: Seq<(usize, AgentAction)>,
    |
        {
            &&& predators_decided(before_predators, before_prey, params, predators, predator_actions)
            &&& all_prey_decided(before_prey, before_predators, params, prey, prey_actions)
            &&& after_predators == #[trigger] settled_predators(
                predators,
                predator_actions,
                prey,
                prey_actions,
                before_next_id,
                params,
            )
            &&& after_prey == settled_prey(
                predators,
                predator_actions,
                prey,
                prey_actions,
                before_next_id,
                params,
            )
            &&& after_next_id == committed_next_id(
                predator_actions,
                prey_actions,
                before_next_id,
                params,
            )
        };
    let alive_predators = living(
        committed_predators(predators, predator_actions, before_next_id, params),
    );
    let alive_prey = living(
        committed_prey(prey, predator_actions, prey_actions, before_next_id, params),
    );
    lemma_living_alive(committed_predators(predators, predator_actions, before_next_id, params));
    lemma_living_alive(committed_prey(prey, predator_actions, prey_actions, before_next_id, params));
    lemma_cuts(alive_predators.len(), alive_prey.len(), params.simulation.max_agents);
    let first = predator_cut(alive_predators.len(), alive_prey.len(), params.simulation.max_agents);
    let second = prey_cut(alive_predators.len(), alive_prey.len(), params.simulation.max_agents);
    assert forall|i: int| 0 <= i < after_predators.len() implies (
    #[trigger] after_predators[i]).state().alive() by {
        assert(after_predators[i] == alive_predators[i + first]);
    }
    assert forall|j: int| 0 <= j < after_prey.len() implies (#[trigger] after_prey[j]).state().alive() by {
        assert(after_prey[j] == alive_prey[j + second]);
    }
}

/// Where the metabolic cost of one tick is no less than the energy of any
/// predator, no predator is left at the end of the tick: all starve, none
/// gives birth.
pub proof fn lemma_starved_predators_vanish(
    before_predators: Seq<Predator>,
    before_prey: Seq<Prey>,
    before_next_id: AgentId,
    params: Parameters,
    after_predators: Seq<Predator>,
    after_prey: Seq<Prey>,
    after_next_id: AgentId,
)
    requires
        is_tick(
            before_predators,
            before_prey,
            before_next_id,
            params,
            after_predators,
            after_prey,
            after_next_id,
        ),
        forall|i: int|
            0 <= i < before_predators.len() ==> (
            #[trigger] before_predators[i]).parameters().energy_per_tick.times(
                params.simulation.dt,
            )@ >= before_predators[i].state().energy@,
    ensures
        after_predators.len() == 0,
{
    let (predators, predator_actions, prey, prey_actions) = choose|
        predators: Seq<Predator>,
        predator_actions: Seq<(usize, AgentAction)>,
        prey: Seq<Prey>,
        prey_actions: Seq<(usize, AgentAction)>,
    |
        {
            &&& predators_decided(before_predators, before_prey, params, predators, predator_actions)
            &&& all_prey_decided(before_prey, before_predators, params, prey, prey_actions)
            &&& after_predators == #[trigger] settled_predators(
                predators,
                predator_actions,
                prey,
                prey_actions,
                before_next_id,
                params,
            )
            &&& after_prey == settled_prey(
                predators,
                predator_actions,
                prey,
                prey_actions,
                before_next_id,
                params,
            )
            &&& after_next_id == committed_next_id(
                predator_actions,
                prey_actions,
                before_next_id,
                params,
            )
        };
    assert forall|i: int| 0 <= i < predators.len() implies !(
    #[trigger] predators[i]).state().alive() by {
        assert(before_predators[i].parameters().energy_per_tick.times(params.simulation.dt)@
            >= before_predators[i].state().energy@);
        assert(predator_actions[i].0 == i);
        crate::simulation::predator::lemma_starvation(
            before_predators[i].state(),
            before_predators[i].parameters(),
            predator_perception(before_predators[i].state().position, before_prey, params),
        );
    }
    assert forall|k: int| 0 <= k < predator_actions.len() implies !((
    #[trigger] predator_actions[k]).1 is Reproduce) by {
        assert(before_predators[k].parameters().energy_per_tick.times(params.simulation.dt)@
            >= before_predators[k].state().energy@);
        crate::simulation::predator::lemma_starvation(
            before_predators[k].state(),
            before_predators[k].parameters(),
            predator_perception(before_predators[k].state().position, before_prey, params),
        );
    }
    lemma_no_births(predator_actions);
    let all = committed_predators(predators, predator_actions, before_next_id, params);
    assert(all =~= predators);
    lemma_none_living(predators);
}

/// Where every action that asks for a birth asks for positive energy, the
/// births asked for are viable.
pub proof fn lemma_viable_requests(actions: Seq<(usize, AgentAction)>)
    requires
        forall|k: int|
            0 <= k < actions.len() ==> ((#[trigger] actions[k]).1 matches AgentAction::Reproduce {
                position,
                energy,
            } ==> energy@ > 0),
    ensures
        viable(birth_requests(actions)),
    decreases actions.len(),
{
    if actions.len() > 0 {
        let front = actions.drop_last();
        assert(forall|k: int| 0 <= k < front.len() ==> front[k] == actions[k]);
        lemma_viable_requests(front);
        assert(actions.last() == actions[actions.len() - 1]);
        let rest = birth_requests(front);
        let all = birth_requests(actions);
        assert forall|i: int| 0 <= i < all.len() implies (#[trigger] all[i]).1@ > 0 by {
            if i < rest.len() {
                assert(all[i] == rest[i]);
            }
        }
    }
}

/// The births that the agents of a tick ask for are viable: each parent
/// asks for the initial energy of its own parameters, which is positive for
/// every agent that has its standing.
pub proof fn lemma_decided_births_viable(
    before_predators: Seq<Predator>,
    before_prey: Seq<Prey>,
    params: Parameters,
    next_id: AgentId,
    predators: Seq<Predator>,
    predator_actions: Seq<(usize, AgentAction)>,
    prey: Seq<Prey>,
    prey_actions: Seq<(usize, AgentAction)>,
)
    requires
        ranked(before_predators, AgentType::Predator, next_id),
        ranked(before_prey, AgentType::Prey, next_id),
        predators_decided(before_predators, before_prey, params, predators, predator_actions),
        all_prey_decided(before_prey, before_predators, params, prey, prey_actions),
    ensures
        viable(granted_births(predator_actions, params)),
        viable(granted_births(prey_actions, params)),
{
    assert forall|k: int| 0 <= k < predator_actions.len() implies ((
    #[trigger] predator_actions[k]).1 matches AgentAction::Reproduce { position, energy }
        ==> energy@ > 0) by {
        assert(standing(before_predators[k], AgentType::Predator, next_id));
    }
    assert forall|k: int| 0 <= k < prey_actions.len() implies ((
    #[trigger] prey_actions[k]).1 matches AgentAction::Reproduce { position, energy } ==> energy@
        > 0) by {
        assert(standing(before_prey[k], AgentType::Prey, next_id));
    }
    lemma_viable_requests(predator_actions);
    lemma_viable_requests(prey_actions);
}

/// The first actions ask for no more births than all of them.
pub proof fn lemma_births_of_prefix(actions: Seq<(usize, AgentAction)>, count: int)
    requires
        0 <= count <= actions.len(),
    ensures
        birth_requests(actions.take(count)).len() <= birth_requests(actions).len(),
    decreases actions.len() - count,
{
    if count < actions.len() {
        lemma_births_of_prefix(actions, count + 1);
        assert(actions.take(count + 1).drop_last() == actions.take(count));
    } else {
        assert(actions.take(count) == actions);
    }
}

/// No more births are asked for than there are actions.
pub proof fn lemma_birth_count(actions: Seq<(usize, AgentAction)>)
    ensures
        birth_requests(actions).len() <= actions.len(),
    decreases actions.len(),
{
    if actions.len() > 0 {
        lemma_birth_count(actions.drop_last());
    }
}

} // verus!
