//! What each agent perceives of the other population in a tick.

use vstd::prelude::*;
use crate::config::parameters::Parameters;
use crate::simulation::agent::{Agent, AgentId, Perception, WorldState};
use crate::simulation::predator::Predator;
use crate::simulation::prey::Prey;
use crate::utils::fixed::Scalar;
use crate::utils::math::{Vector2, distance_torus, distance_torus_spec};

verus! {

/// What an observer at `observer` perceives of a population: for each member
/// within `radius` on the torus, in the order of the population, its id, its
/// position and its distance.
pub open spec fn in_sight<A: Agent>(
    observer: Vector2,
    others: Seq<A>,
    width: Scalar,
    height: Scalar,
    radius: Scalar,
) -> Seq<(AgentId, Vector2, Scalar)>
    decreases others.len(),
{
    if others.len() == 0 {
        Seq::empty()
    } else {
        let rest = in_sight(observer, others.drop_last(), width, height, radius);
        let other = others.last().state();
        let distance = distance_torus_spec(observer, other.position, width, height);
        if distance@ <= radius@ {
            rest.push((other.id, other.position, distance))
        } else {
            rest
        }
    }
}

/// What a predator at `observer` perceives in a tick: the prey within its
/// perception radius.
pub open spec fn predator_perception(observer: Vector2, prey: Seq<Prey>, params: Parameters)
    -> Perception {
    Perception {
        width: params.world.width,
        height: params.world.height,
        boundary_type: params.world.boundary_type,
        nearby_predators: Seq::empty(),
        nearby_prey: in_sight(
            observer,
            prey,
            params.world.width,
            params.world.height,
            params.predator.perception_radius,
        ),
        dt: params.simulation.dt,
    }
}

/// What a prey at `observer` perceives in a tick: the predators within the
/// larger of the predators' perception radius and the prey's detection
/// radius.
pub open spec fn prey_perception(observer: Vector2, predators: Seq<Predator>, params: Parameters)
    -> Perception {
    Perception {
        width: params.world.width,
        height: params.world.height,
        boundary_type: params.world.boundary_type,
        nearby_predators: in_sight(
            observer,
            predators,
            params.world.width,
            params.world.height,
            params.predator.perception_radius.larger(params.prey.detection_radius),
        ),
        nearby_prey: Seq::empty(),
        dt: params.simulation.dt,
    }
}

/// The perceptions of one tick: one for each predator, one for each prey,
/// all taken of the same populations.
pub open spec fn is_snapshot(
    predator_views: Seq<WorldState>,
    prey_views: Seq<WorldState>,
    predators: Seq<Predator>,
    prey: Seq<Prey>,
    params: Parameters,
) -> bool {
    &&& predator_views.len() == predators.len()
    &&& prey_views.len() == prey.len()
    &&& forall|i: int|
        0 <= i < predators.len() ==> (#[trigger] predator_views[i])@ == predator_perception(
            predators[i].state().position,
            prey,
            params,
        )
    &&& forall|j: int|
        0 <= j < prey.len() ==> (#[trigger] prey_views[j])@ == prey_perception(
            prey[j].state().position,
            predators,
            params,
        )
}

/// What an observer perceives of a population within `radius` on the torus.
pub fn perceive<A: Agent>(
    observer: Vector2,
    others: &Vec<A>,
    width: Scalar,
    height: Scalar,
    radius: Scalar,
) -> (seen: Vec<(AgentId, Vector2, Scalar)>)
    ensures
        seen@ == in_sight(observer, others@, width, height, radius),
{
    let mut seen: Vec<(AgentId, Vector2, Scalar)> = Vec::new();
    let mut i: usize = 0;
    while i < others.len()
        invariant
            i <= others.len(),
            seen@ == in_sight(observer, others@.take(i as int), width, height, radius),
        decreases others.len() - i,
    {
        proof {
            let grown = others@.take(i + 1);
            assert(grown.drop_last() == others@.take(i as int));
            assert(grown.last() == others@[i as int]);
        }
        let position = others[i].position();
        let distance = distance_torus(&observer, &position, width, height);
        if distance.raw <= radius.raw {
            seen.push((others[i].id(), position, distance));
        }
        i = i + 1;
    }
    assert(others@.take(others.len() as int) == others@);
    seen
}

} // verus!
