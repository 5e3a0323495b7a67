//! One tick as a relation between worlds, and its phases: decisions, commit,
//! cull, ceiling.

use vstd::prelude::*;
use crate::config::parameters::{Parameters, PredatorParameters, PreyParameters};
use crate::simulation::agent::{Agent, AgentAction, AgentId};
use crate::simulation::perception::{predator_perception, prey_perception};
use crate::simulation::predator::{Predator, predator_decided};
use crate::simulation::prey::{Prey, prey_decided};
use crate::utils::fixed::Scalar;
use crate::utils::math::Vector2;

verus! {

/// The ids that the actions name as consumed, in the order of the actions.
pub open spec fn consumed_ids(actions: Seq<(usize, AgentAction)>) -> Seq<AgentId>
    decreases actions.len(),
{
    if actions.len() == 0 {
        Seq::empty()
    } else {
        let rest = consumed_ids(actions.drop_last());
        match actions.last().1 {
            AgentAction::Consumed { target_id } => rest.push(target_id),
            _ => rest,
        }
    }
}

/// The births that the actions ask for, in the order of the actions: for
/// each the site and the energy of the newborn.
pub open spec fn birth_requests(actions: Seq<(usize, AgentAction)>) -> Seq<(Vector2, Scalar)>
    decreases actions.len(),
{
    if actions.len() == 0 {
        Seq::empty()
    } else {
        let rest = birth_requests(actions.drop_last());
        match actions.last().1 {
            AgentAction::Reproduce { position, energy } => rest.push((position, energy)),
            _ => rest,
        }
    }
}

/// Every birth asks for a newborn of positive energy: one that is alive.
pub open spec fn viable(births: Seq<(Vector2, Scalar)>) -> bool {
    forall|i: int| 0 <= i < births.len() ==> (#[trigger] births[i]).1@ > 0
}

/// The prey whose id is not among `eaten`, in their order.
pub open spec fn uneaten(prey: Seq<Prey>, eaten: Seq<AgentId>) -> Seq<Prey>
    decreases prey.len(),
{
    if prey.len() == 0 {
        Seq::empty()
    } else {
        let rest = uneaten(prey.drop_last(), eaten);
        if eaten.contains(prey.last().state().id) {
            rest
        } else {
            rest.push(prey.last())
        }
    }
}

/// The members that are alive, in their order.
pub open spec fn living<A: Agent>(population: Seq<A>) -> Seq<A>
    decreases population.len(),
{
    if population.len() == 0 {
        Seq::empty()
    } else {
        let rest = living(population.drop_last());
        if population.last().state().alive() {
            rest.push(population.last())
        } else {
            rest
        }
    }
}

/// The predators born of `births`: each at the site and with the energy
/// asked for, with the parameters `params`, and with the ids from `first_id`
/// on in turn.
pub open spec fn born_predators(
    births: Seq<(Vector2, Scalar)>,
    first_id: int,
    params: PredatorParameters,
) -> Seq<Predator> {
    Seq::new(
        births.len(),
        |i: int| Predator::born_with((first_id + i) as u32, births[i].0, births[i].1, params),
    )
}

/// The prey born of `births`: each at the site and with the energy asked
/// for, with the parameters `params`, and with the ids from `first_id` on in
/// turn.
pub open spec fn born_prey(births: Seq<(Vector2, Scalar)>, first_id: int, params: PreyParameters)
    -> Seq<Prey> {
    Seq::new(
        births.len(),
        |i: int| Prey::born_with((first_id + i) as u32, births[i].0, births[i].1, params),
    )
}

/// The births that take place: those that the actions ask for where
/// reproduction is enabled, none where it is not.
pub open spec fn granted_births(actions: Seq<(usize, AgentAction)>, params: Parameters) -> Seq<
    (Vector2, Scalar),
> {
    if params.simulation.enable_reproduction {
        birth_requests(actions)
    } else {
        Seq::empty()
    }
}

/// The predators once the actions are committed: those that were, then
/// the newborn.
pub open spec fn committed_predators(
    predators: Seq<Predator>,
    predator_actions: Seq<(usize, AgentAction)>,
    next_id: AgentId,
    params: Parameters,
) -> Seq<Predator> {
    predators + born_predators(
        granted_births(predator_actions, params),
        next_id as int,
        params.predator,
    )
}

/// The prey once the actions are committed: those that were not consumed,
/// then the newborn, whose ids follow those of the newborn predators.
pub open spec fn committed_prey(
    prey: Seq<Prey>,
    predator_actions: Seq<(usize, AgentAction)>,
    prey_actions: Seq<(usize, AgentAction)>,
    next_id: AgentId,
    params: Parameters,
) -> Seq<Prey> {
    uneaten(prey, consumed_ids(predator_actions)) + born_prey(
        granted_births(prey_actions, params),
        next_id + granted_births(predator_actions, params).len(),
        params.prey,
    )
}

/// The next id once the actions are committed.
pub open spec fn committed_next_id(
    predator_actions: Seq<(usize, AgentAction)>,
    prey_actions: Seq<(usize, AgentAction)>,
    next_id: AgentId,
    params: Parameters,
) -> int {
    next_id + granted_births(predator_actions, params).len() + granted_births(
        prey_actions,
        params,
    ).len()
}

/// By how many agents `total` exceeds the ceiling.
pub open spec fn excess(total: nat, max_agents: u32) -> nat {
    if total > max_agents {
        (total - max_agents) as nat
    } else {
        0
    }
}

/// How many predators leave for the ceiling: the excess, as far as there are
/// predators.
pub open spec fn predator_cut(predator_count: nat, prey_count: nat, max_agents: u32) -> nat {
    let over = excess(predator_count + prey_count, max_agents);
    if over <= predator_count {
        over
    } else {
        predator_count
    }
}

/// How many prey leave for the ceiling: what is left of the excess once all
/// predators have left.
pub open spec fn prey_cut(predator_count: nat, prey_count: nat, max_agents: u32) -> nat {
    let over = excess(predator_count + prey_count, max_agents);
    if over <= predator_count {
        0
    } else {
        (over - predator_count) as nat
    }
}

/// The populations are cut from the front, and no further than they reach;
/// what is left is within the ceiling, and nothing leaves where the ceiling
/// is kept.
pub proof fn lemma_cuts(predator_count: nat, prey_count: nat, max_agents: u32)
    ensures
        predator_cut(predator_count, prey_count, max_agents) <= predator_count,
        prey_cut(predator_count, prey_count, max_agents) <= prey_count,
        (predator_count - predator_cut(predator_count, prey_count, max_agents)) + (prey_count
            - prey_cut(predator_count, prey_count, max_agents)) <= max_agents,
        predator_count + prey_count <= max_agents ==> predator_cut(
            predator_count,
            prey_count,
            max_agents,
        ) == 0 && prey_cut(predator_count, prey_count, max_agents) == 0,
        prey_cut(predator_count, prey_count, max_agents) > 0 ==> predator_cut(
            predator_count,
            prey_count,
            max_agents,
        ) == predator_count,
{
}

/// How many agents leave each population, oldest first, to keep the ceiling.
pub fn capacity_cuts(predator_count: usize, prey_count: usize, max_agents: u32) -> (cuts: (
    usize,
    usize,
))
    ensures
        cuts.0 == predator_cut(predator_count as nat, prey_count as nat, max_agents),
        cuts.1 == prey_cut(predator_count as nat, prey_count as nat, max_agents),
{
    let total: u128 = predator_count as u128 + prey_count as u128;
    if total > max_agents as u128 {
        let to_remove: u128 = total - max_agents as u128;
        if predator_count as u128 >= to_remove {
            (to_remove as usize, 0)
        } else {
            (predator_count, (to_remove - predator_count as u128) as usize)
        }
    } else {
        (0, 0)
    }
}

/// The ids that the actions name as consumed.
pub fn collect_consumed(actions: &Vec<(usize, AgentAction)>) -> (eaten: Vec<AgentId>)
    ensures
        eaten@ == consumed_ids(actions@),
{
    let mut eaten: Vec<AgentId> = Vec::new();
    let mut i: usize = 0;
    while i < actions.len()
        invariant
            i <= actions.len(),
            eaten@ == consumed_ids(actions@.take(i as int)),
        decreases actions.len() - i,
    {
        proof {
            let grown = actions@.take(i + 1);
            assert(grown.drop_last() == actions@.take(i as int));
            assert(grown.last() == actions@[i as int]);
        }
        match actions[i].1 {
            AgentAction::Consumed { target_id } => {
                eaten.push(target_id);
            },
            _ => {},
        }
        i = i + 1;
    }
    assert(actions@.take(actions.len() as int) == actions@);
    eaten
}

/// Whether `id` is among `ids`.
pub fn contains_id(ids: &Vec<AgentId>, id: AgentId) -> (found: bool)
    ensures
        found == ids@.contains(id),
{
    let mut i: usize = 0;
    while i < ids.len()
        invariant
            i <= ids.len(),
            forall|k: int| 0 <= k < i ==> ids@[k] != id,
        decreases ids.len() - i,
    {
        if ids[i] == id {
            return true;
        }
        i = i + 1;
    }
    false
}

/// The prey that were not consumed.
pub fn remove_consumed(prey: &Vec<Prey>, eaten: &Vec<AgentId>) -> (left: Vec<Prey>)
    ensures
        left@ == uneaten(prey@, eaten@),
{
    let mut left: Vec<Prey> = Vec::new();
    let mut i: usize = 0;
    while i < prey.len()
        invariant
            i <= prey.len(),
            left@ == uneaten(prey@.take(i as int), eaten@),
        decreases prey.len() - i,
    {
        proof {
            let grown = prey@.take(i + 1);
            assert(grown.drop_last() == prey@.take(i as int));
            assert(grown.last() == prey@[i as int]);
        }
        if !contains_id(eaten, prey[i].id()) {
            left.push(prey[i]);
        }
        i = i + 1;
    }
    assert(prey@.take(prey.len() as int) == prey@);
    left
}

/// The members that are alive.
pub fn remove_dead<A: Agent + Copy>(population: &Vec<A>) -> (left: Vec<A>)
    ensures
        left@ == living(population@),
{
    let mut left: Vec<A> = Vec::new();
    let mut i: usize = 0;
    while i < population.len()
        invariant
            i <= population.len(),
            left@ == living(population@.take(i as int)),
        decreases population.len() - i,
    {
        proof {
            let grown = population@.take(i + 1);
            assert(grown.drop_last() == population@.take(i as int));
            assert(grown.last() == population@[i as int]);
        }
        if population[i].is_alive() {
            left.push(population[i]);
        }
        i = i + 1;
    }
    assert(population@.take(population.len() as int) == population@);
    left
}

/// The predators and their actions after the decisions of one tick, each
/// taken on what that predator perceived of the prey as they were before.
pub open spec fn predators_decided(
    before: Seq<Predator>,
    prey: Seq<Prey>,
    params: Parameters,
    after: Seq<Predator>,
    actions: Seq<(usize, AgentAction)>,
) -> bool {
    &&& after.len() == before.len()
    &&& actions.len() == before.len()
    &&& forall|i: int|
        0 <= i < before.len() ==> {
            &&& (#[trigger] actions[i]).0 == i
            &&& predator_decided(
                before[i],
                predator_perception(before[i].state().position, prey, params),
                after[i],
                actions[i].1,
            )
        }
}

/// The prey and their actions after the decisions of one tick, each taken on
/// what that prey perceived of the predators as they were before.
pub open spec fn all_prey_decided(
    before: Seq<Prey>,
    predators: Seq<Predator>,
    params: Parameters,
    after: Seq<Prey>,
    actions: Seq<(usize, AgentAction)>,
) -> bool {
    &&& after.len() == before.len()
    &&& actions.len() == before.len()
    &&& forall|j: int|
        0 <= j < before.len() ==> {
            &&& (#[trigger] actions[j]).0 == j
            &&& prey_decided(
                before[j],
                prey_perception(before[j].state().position, predators, params),
                after[j],
                actions[j].1,
            )
        }
}

/// The predators at the end of a tick: the actions are committed, the dead
/// leave, and the ceiling is enforced.
pub open spec fn settled_predators(
    predators: Seq<Predator>,
    predator_actions: Seq<(usize, AgentAction)>,
    prey: Seq<Prey>,
    prey_actions: Seq<(usize, AgentAction)>,
    next_id: AgentId,
    params: Parameters,
) -> Seq<Predator> {
    let alive_predators = living(
        committed_predators(predators, predator_actions, next_id, params),
    );
    let alive_prey = living(
        committed_prey(prey, predator_actions, prey_actions, next_id, params),
    );
    alive_predators.skip(
        predator_cut(alive_predators.len(), alive_prey.len(), params.simulation.max_agents) as int,
    )
}

/// The prey at the end of a tick: the actions are committed, the dead leave,
/// and the ceiling is enforced.
pub open spec fn settled_prey(
    predators: Seq<Predator>,
    predator_actions: Seq<(usize, AgentAction)>,
    prey: Seq<Prey>,
    prey_actions: Seq<(usize, AgentAction)>,
    next_id: AgentId,
    params: Parameters,
) -> Seq<Prey> {
    let alive_predators = living(
        committed_predators(predators, predator_actions, next_id, params),
    );
    let alive_prey = living(
        committed_prey(prey, predator_actions, prey_actions, next_id, params),
    );
    alive_prey.skip(
        prey_cut(alive_predators.len(), alive_prey.len(), params.simulation.max_agents) as int,
    )
}

/// One tick leads from the populations and the next id `before` to those
/// `after`: the agents decide, each on what it perceived `before`, on
/// something for what is left to chance (the site of a birth, the way of a
/// prey that stands on its predator); the actions are committed, the dead
/// leave, and the ceiling is enforced.
pub open spec fn is_tick(
    before_predators: Seq<Predator>,
    before_prey: Seq<Prey>,
    before_next_id: AgentId,
    params: Parameters,
    after_predators: Seq<Predator>,
    after_prey: Seq<Prey>,
    after_next_id: AgentId,
) -> bool {
    exists|
        predators: Seq<Predator>,
        predator_actions: Seq<(usize, AgentAction)>,
        prey: Seq<Prey>,
        prey_actions: Seq<(usize, AgentAction)>,
    |
        {
            &&& predators_decided(before_predators, before_prey, params, predators, predator_actions)
            &&& all_prey_decided(before_prey, before_predators, params, prey, prey_actions)
            &&& after_predators == #[trigger] settled_predators(
                predators,
                predator_actions,
                prey,
                prey_actions,
                before_next_id,
                params,
            )
            &&& after_prey == settled_prey(
                predators,
                predator_actions,
                prey,
                prey_actions,
                before_next_id,
                params,
            )
            &&& after_next_id == committed_next_id(
                predator_actions,
                prey_actions,
                before_next_id,
                params,
            )
        }
}

} // verus!
