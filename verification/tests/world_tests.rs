// World tests

use predator_prey_sim::config::parameters::Parameters;
use predator_prey_sim::simulation::agent::{Agent, AgentAction};
use predator_prey_sim::simulation::predator::Predator;
use predator_prey_sim::simulation::prey::Prey;
use predator_prey_sim::simulation::perception::perceive;
use predator_prey_sim::simulation::tick::{
    capacity_cuts, collect_consumed, contains_id, remove_consumed, remove_dead,
};
use predator_prey_sim::simulation::world::{mean_energy, World};
use predator_prey_sim::utils::fixed::Scalar;
use predator_prey_sim::utils::math::Vector2;

fn fx(value: f64) -> Scalar {
    Scalar::from_raw((value * 1e12).round() as i64)
}

fn vec2(x: f64, y: f64) -> Vector2 {
    Vector2::new(fx(x), fx(y))
}

fn empty_world(max_agents: u32) -> World {
    let mut params = Parameters::default();
    params.predator.initial_count = 0;
    params.prey.initial_count = 0;
    params.simulation.max_agents = max_agents;
    World::new(params)
}

fn ids_of_predators(world: &World) -> Vec<u32> {
    world.predators().iter().map(|p| p.id()).collect()
}

fn ids_of_prey(world: &World) -> Vec<u32> {
    world.prey().iter().map(|p| p.id()).collect()
}

#[test]
fn test_world_creation() {
    let params = Parameters::default();
    let world = World::new(params);

    assert!(world.predator_count() > 0);
    assert!(world.prey_count() > 0);
}

#[test]
fn test_world_update() {
    let params = Parameters::default();
    let mut world = World::new(params);

    // Run a few updates
    for _ in 0..10 {
        world.update();
    }

    // Counts may change but shouldn't crash
    assert!(world.total_agents() > 0);
}

#[test]
fn test_world_reset() {
    let params = Parameters::default();
    let mut world = World::new(params.clone());

    let initial_predator_count = world.predator_count();
    let initial_prey_count = world.prey_count();

    // Run some updates
    for _ in 0..20 {
        world.update();
    }

    // Reset
    world.reset();

    // Should have same initial counts
    assert_eq!(world.predator_count(), initial_predator_count);
    assert_eq!(world.prey_count(), initial_prey_count);
}

#[test]
fn test_world_total_agents() {
    let params = Parameters::default();
    let world = World::new(params);

    let total = world.total_agents();
    assert_eq!(total, world.predator_count() + world.prey_count());
}

#[test]
fn test_world_max_agents_limit() {
    let mut params = Parameters::default();
    params.simulation.max_agents = 10; // Very low limit
    params.simulation.enable_reproduction = true;
    params.predator.initial_count = 5;
    params.prey.initial_count = 5;

    let mut world = World::new(params);

    // Run many updates to trigger reproduction
    for _ in 0..100 {
        world.update();
    }

    // Should not exceed max_agents
    assert!(world.total_agents() <= 10);
}

#[test]
fn test_new_world_seeds_ids_and_positions() {
    let mut params = Parameters::default();
    params.predator.initial_count = 3;
    params.prey.initial_count = 4;
    params.world.width = fx(40.0);
    params.world.height = fx(30.0);
    let world = World::new(params);

    assert_eq!(ids_of_predators(&world), vec![1, 2, 3]);
    assert_eq!(ids_of_prey(&world), vec![4, 5, 6, 7]);
    assert_eq!(world.remaining_ids(), u32::MAX - 8);
    for predator in world.predators() {
        assert!(predator.position().x.raw() >= 0 && predator.position().x.raw() < fx(40.0).raw());
        assert!(predator.position().y.raw() >= 0 && predator.position().y.raw() < fx(30.0).raw());
        assert_eq!(predator.energy(), fx(100.0));
        assert_eq!(predator.velocity(), vec2(0.0, 0.0));
        assert_eq!(predator.age(), 0);
        assert_eq!(predator.max_speed(), fx(2.0));
    }
    for prey in world.prey() {
        assert!(prey.position().x.raw() >= 0 && prey.position().x.raw() < fx(40.0).raw());
        assert!(prey.position().y.raw() >= 0 && prey.position().y.raw() < fx(30.0).raw());
        assert_eq!(prey.energy(), fx(80.0));
    }
}

#[test]
fn test_world_accepts_only_valid_parameters() {
    let mut params = Parameters::default();
    assert!(World::accepts(&params));
    params.world.width = fx(0.0);
    assert!(!World::accepts(&params));
    let mut params = Parameters::default();
    params.predator.initial_count = u32::MAX - 50;
    assert!(!World::accepts(&params));
    params.prey.initial_count = 49;
    assert!(World::accepts(&params));
}

#[test]
fn test_repeated_reset_restores_initial_counts() {
    let mut params = Parameters::default();
    params.predator.initial_count = 7;
    params.prey.initial_count = 13;
    params.simulation.max_agents = 15;
    let mut world = World::new(params);
    for round in 0..5 {
        assert_eq!(world.predator_count(), 7);
        assert_eq!(world.prey_count(), 13);
        assert_eq!(ids_of_predators(&world), (1..=7).collect::<Vec<u32>>());
        assert_eq!(ids_of_prey(&world), (8..=20).collect::<Vec<u32>>());
        for _ in 0..round {
            world.update();
        }
        world.spawn_prey(2);
        world.reset();
    }
}

#[test]
fn test_capacity_cuts() {
    assert_eq!(capacity_cuts(3, 4, 10), (0, 0));
    assert_eq!(capacity_cuts(3, 4, 7), (0, 0));
    assert_eq!(capacity_cuts(3, 4, 6), (1, 0));
    assert_eq!(capacity_cuts(3, 4, 4), (3, 0));
    assert_eq!(capacity_cuts(3, 4, 3), (3, 1));
    assert_eq!(capacity_cuts(3, 4, 0), (3, 4));
    assert_eq!(capacity_cuts(0, 9, 5), (0, 4));
    assert_eq!(capacity_cuts(9, 0, 5), (4, 0));
    assert_eq!(capacity_cuts(0, 0, 0), (0, 0));
}

#[test]
fn test_enforce_max_agents_evicts_oldest_predators_first() {
    let mut world = empty_world(100);
    assert_eq!(world.spawn_predators(3), 3);
    assert_eq!(world.spawn_prey(4), 4);
    assert_eq!(ids_of_predators(&world), vec![1, 2, 3]);
    assert_eq!(ids_of_prey(&world), vec![4, 5, 6, 7]);

    let mut params = *world.parameters();
    params.simulation.max_agents = 6;
    world.update_parameters(params);
    world.enforce_max_agents();
    assert_eq!(ids_of_predators(&world), vec![2, 3]);
    assert_eq!(ids_of_prey(&world), vec![4, 5, 6, 7]);

    params.simulation.max_agents = 3;
    world.update_parameters(params);
    world.enforce_max_agents();
    assert_eq!(ids_of_predators(&world), Vec::<u32>::new());
    assert_eq!(ids_of_prey(&world), vec![5, 6, 7]);

    params.simulation.max_agents = 0;
    world.update_parameters(params);
    world.enforce_max_agents();
    assert_eq!(world.total_agents(), 0);
}

#[test]
fn test_process_actions_commits_captures_and_births() {
    let mut world = empty_world(100);
    world.spawn_predators(2);
    world.spawn_prey(3);

    let predator_actions = vec![
        (0, AgentAction::Consumed { target_id: 4 }),
        (1, AgentAction::Reproduce { position: vec2(11.0, 12.0), energy: fx(1.0) }),
    ];
    let prey_actions = vec![
        (0, AgentAction::Idle),
        (1, AgentAction::Reproduce { position: vec2(21.0, 22.0), energy: fx(2.5) }),
        (2, AgentAction::Consumed { target_id: 5 }),
        (3, AgentAction::Move { position: vec2(1.0, 1.0), velocity: vec2(1.0, 1.0) }),
        (4, AgentAction::Reproduce { position: vec2(31.0, 32.0), energy: fx(321.0) }),
    ];
    world.process_actions(predator_actions, prey_actions);

    assert_eq!(ids_of_predators(&world), vec![1, 2, 6]);
    assert_eq!(ids_of_prey(&world), vec![3, 5, 7, 8]);
    // Each newborn is at the site and has the energy that its birth asked for.
    assert_eq!(world.predators()[2].position(), vec2(11.0, 12.0));
    assert_eq!(world.predators()[2].energy(), fx(1.0));
    assert_eq!(world.predators()[2].age(), 0);
    assert_eq!(world.predators()[2].velocity(), vec2(0.0, 0.0));
    assert_eq!(world.predators()[2].max_speed(), fx(2.0));
    assert_eq!(world.prey()[2].position(), vec2(21.0, 22.0));
    assert_eq!(world.prey()[2].energy(), fx(2.5));
    assert_eq!(world.prey()[3].position(), vec2(31.0, 32.0));
    assert_eq!(world.prey()[3].energy(), fx(321.0));
    // The older agents keep their order and their state.
    assert_eq!(world.predators()[0].energy(), fx(100.0));
    assert_eq!(world.prey()[1].energy(), fx(80.0));
    assert_eq!(world.remaining_ids(), u32::MAX - 9);
}

#[test]
fn test_offspring_get_the_energy_of_their_parents_parameters() {
    let mut params = Parameters::default();
    params.predator.initial_count = 3;
    params.prey.initial_count = 4;
    params.predator.initial_energy = fx(200.0);
    params.prey.initial_energy = fx(180.0);
    params.simulation.max_agents = 1000;
    let mut world = World::new(params);

    // The parameters change; the agents alive keep those they were created
    // with, and ask for offspring with the initial energy of those.
    let mut changed = params;
    changed.predator.initial_energy = fx(30.0);
    changed.prey.initial_energy = fx(20.0);
    changed.predator.max_speed = fx(7.0);
    changed.predator.perception_radius = fx(0.000000000001);
    changed.prey.detection_radius = fx(0.000000000001);
    world.update_parameters(changed);

    world.update();

    // Every agent was over its threshold: each gave birth once.
    assert_eq!(world.predator_count(), 6);
    assert_eq!(world.prey_count(), 8);
    for newborn in &world.predators()[3..] {
        assert_eq!(newborn.energy(), fx(200.0));
        assert_eq!(newborn.max_speed(), fx(7.0));
        assert_eq!(newborn.age(), 0);
    }
    for newborn in &world.prey()[4..] {
        assert_eq!(newborn.energy(), fx(180.0));
    }
    assert_eq!(ids_of_predators(&world), vec![1, 2, 3, 8, 9, 10]);
    assert_eq!(ids_of_prey(&world), vec![4, 5, 6, 7, 11, 12, 13, 14]);
}

#[test]
fn test_process_actions_birth_without_energy_is_committed_as_asked() {
    let mut world = empty_world(100);
    let predator_actions =
        vec![(0, AgentAction::Reproduce { position: vec2(5.0, 5.0), energy: fx(0.0) })];
    world.process_actions(predator_actions, Vec::new());
    assert_eq!(world.predator_count(), 1);
    assert_eq!(world.predators()[0].energy(), fx(0.0));
    assert!(!world.predators()[0].is_alive());
}

#[test]
fn test_process_actions_without_reproduction() {
    let mut params = Parameters::default();
    params.predator.initial_count = 1;
    params.prey.initial_count = 2;
    params.simulation.enable_reproduction = false;
    let mut world = World::new(params);

    let predator_actions = vec![
        (0, AgentAction::Reproduce { position: vec2(11.0, 12.0), energy: fx(1.0) }),
        (0, AgentAction::Consumed { target_id: 3 }),
        (0, AgentAction::Consumed { target_id: 3 }),
        (0, AgentAction::Consumed { target_id: 99 }),
    ];
    let prey_actions =
        vec![(0, AgentAction::Reproduce { position: vec2(21.0, 22.0), energy: fx(1.0) })];
    world.process_actions(predator_actions, prey_actions);

    assert_eq!(ids_of_predators(&world), vec![1]);
    assert_eq!(ids_of_prey(&world), vec![2]);
    assert_eq!(world.remaining_ids(), u32::MAX - 4);
}

#[test]
fn test_perceive_lists_neighbours_within_radius() {
    let params = Parameters::default();
    let prey = vec![
        Prey::new(5, vec2(10.0, 10.0), params.prey),
        Prey::new(6, vec2(95.0, 10.0), params.prey),
        Prey::new(7, vec2(50.0, 50.0), params.prey),
        Prey::new(8, vec2(10.0, 30.0), params.prey),
        Prey::new(9, vec2(13.0, 14.0), params.prey),
    ];
    let seen = perceive(vec2(10.0, 10.0), &prey, fx(100.0), fx(100.0), fx(20.0));
    assert_eq!(
        seen,
        vec![
            (5, vec2(10.0, 10.0), fx(0.0)),
            (6, vec2(95.0, 10.0), fx(15.0)),
            (8, vec2(10.0, 30.0), fx(20.0)),
            (9, vec2(13.0, 14.0), fx(5.0)),
        ]
    );
    let seen = perceive(vec2(10.0, 10.0), &prey, fx(100.0), fx(100.0), fx(4.999999999999));
    assert_eq!(seen, vec![(5, vec2(10.0, 10.0), fx(0.0))]);
    let none: Vec<Predator> = Vec::new();
    assert_eq!(perceive(vec2(10.0, 10.0), &none, fx(100.0), fx(100.0), fx(20.0)), vec![]);
}

#[test]
fn test_build_world_state_is_per_agent() {
    let mut params = Parameters::default();
    params.predator.initial_count = 6;
    params.prey.initial_count = 9;
    params.world.width = fx(120.0);
    params.world.height = fx(90.0);
    params.predator.perception_radius = fx(30.0);
    params.prey.detection_radius = fx(45.0);
    let world = World::new(params);

    let (predator_views, prey_views) = world.build_world_state();
    assert_eq!(predator_views.len(), 6);
    assert_eq!(prey_views.len(), 9);
    let all_prey: Vec<Prey> = world.prey().to_vec();
    let all_predators: Vec<Predator> = world.predators().to_vec();
    for (i, view) in predator_views.iter().enumerate() {
        assert_eq!(view.width, fx(120.0));
        assert_eq!(view.height, fx(90.0));
        assert_eq!(view.dt, params.simulation.dt);
        assert!(view.nearby_predators.is_empty());
        let expected =
            perceive(all_predators[i].position(), &all_prey, fx(120.0), fx(90.0), fx(30.0));
        assert_eq!(view.nearby_prey, expected);
        for entry in &view.nearby_prey {
            assert!(entry.2.raw() <= fx(30.0).raw());
        }
    }
    for (j, view) in prey_views.iter().enumerate() {
        assert!(view.nearby_prey.is_empty());
        let expected =
            perceive(all_prey[j].position(), &all_predators, fx(120.0), fx(90.0), fx(45.0));
        assert_eq!(view.nearby_predators, expected);
    }

    // The larger radius counts for the prey, whichever it is.
    let mut swapped = params;
    swapped.predator.perception_radius = fx(45.0);
    swapped.prey.detection_radius = fx(30.0);
    let mut world = world;
    world.update_parameters(swapped);
    let (_, prey_views) = world.build_world_state();
    for (j, view) in prey_views.iter().enumerate() {
        let expected =
            perceive(all_prey[j].position(), &all_predators, fx(120.0), fx(90.0), fx(45.0));
        assert_eq!(view.nearby_predators, expected);
    }
}

#[test]
fn test_collect_and_remove_consumed() {
    let actions = vec![
        (0, AgentAction::Idle),
        (1, AgentAction::Consumed { target_id: 12 }),
        (2, AgentAction::Reproduce { position: vec2(1.0, 1.0), energy: fx(1.0) }),
        (3, AgentAction::Consumed { target_id: 10 }),
        (4, AgentAction::Consumed { target_id: 12 }),
    ];
    let eaten = collect_consumed(&actions);
    assert_eq!(eaten, vec![12, 10, 12]);
    assert!(contains_id(&eaten, 10));
    assert!(!contains_id(&eaten, 11));

    let params = Parameters::default();
    let prey: Vec<Prey> =
        (9..14).map(|id| Prey::new(id, vec2(id as f64, 0.0), params.prey)).collect();
    let left = remove_consumed(&prey, &eaten);
    let ids: Vec<u32> = left.iter().map(|p| p.id()).collect();
    assert_eq!(ids, vec![9, 11, 13]);
}

#[test]
fn test_remove_dead_and_mean_energy() {
    let mut params = Parameters::default();
    let mut predators: Vec<Predator> = Vec::new();
    for (id, energy) in [(1, 10.0), (2, 0.0), (3, 25.5), (4, -4.0), (5, 0.000000000001)] {
        params.predator.initial_energy = fx(energy);
        predators.push(Predator::new(id, vec2(0.0, 0.0), params.predator));
    }
    assert_eq!(mean_energy(&predators), fx(6.3).add(Scalar::from_raw(0)));
    let left = remove_dead(&predators);
    let ids: Vec<u32> = left.iter().map(|p| p.id()).collect();
    assert_eq!(ids, vec![1, 3, 5]);
    // (10 + 25.5 + 0.000000000001) / 3, rounded toward zero
    assert_eq!(mean_energy(&left).raw(), 11_833_333_333_333);
    let none: Vec<Predator> = Vec::new();
    assert_eq!(mean_energy(&none), fx(0.0));
}

#[test]
fn test_starving_predators_are_gone_after_one_tick() {
    let mut params = Parameters::default();
    params.predator.energy_per_tick = fx(1000000.0);
    params.predator.initial_count = 25;
    params.prey.initial_count = 40;
    let mut world = World::new(params);
    assert_eq!(world.predator_count(), 25);
    world.update();
    assert_eq!(world.predator_count(), 0);
    assert_eq!(world.prey_count(), 40);
    assert_eq!(world.average_predator_energy(), fx(0.0));
}

#[test]
fn test_no_dead_agent_survives_a_tick() {
    let mut params = Parameters::default();
    params.predator.initial_energy = fx(0.05);
    params.predator.energy_per_tick = fx(0.6);
    params.predator.initial_count = 30;
    params.prey.initial_count = 30;
    let mut world = World::new(params);
    let mut alive_before = world.predator_count();
    for _ in 0..20 {
        world.update();
        for predator in world.predators() {
            assert!(predator.is_alive());
            assert!(predator.energy().raw() > 0);
        }
        for prey in world.prey() {
            assert!(prey.is_alive());
        }
        assert!(world.predator_count() <= alive_before + world.predator_count());
        alive_before = world.predator_count();
    }
    // 0.05 lasts five ticks of 0.6 / 60 unless a prey was caught.
    for predator in world.predators() {
        assert!(predator.energy().raw() > fx(40.0).raw());
    }
}

#[test]
fn test_ids_stay_unique_and_growing() {
    let mut params = Parameters::default();
    params.predator.initial_count = 4;
    params.prey.initial_count = 12;
    params.predator.initial_energy = fx(200.0);
    params.prey.initial_energy = fx(200.0);
    params.predator.reproduction_threshold = fx(50.0);
    params.prey.reproduction_threshold = fx(50.0);
    params.simulation.max_agents = 60;
    params.world.width = fx(100.0);
    params.world.height = fx(100.0);
    let mut world = World::new(params);
    let mut highest = 16;
    for _ in 0..60 {
        let left_before = world.remaining_ids();
        world.update();
        assert!(world.remaining_ids() <= left_before);
        let predators = ids_of_predators(&world);
        let prey = ids_of_prey(&world);
        assert!(predators.windows(2).all(|pair| pair[0] < pair[1]));
        assert!(prey.windows(2).all(|pair| pair[0] < pair[1]));
        assert!(predators.iter().all(|id| !prey.contains(id)));
        let issued = u32::MAX - world.remaining_ids();
        assert!(predators.iter().chain(prey.iter()).all(|id| *id >= 1 && *id < issued));
        assert!(issued >= highest);
        highest = issued;
        assert!(world.total_agents() <= 60);
        for predator in world.predators() {
            assert!(predator.velocity().magnitude().raw() <= predator.max_speed().raw());
        }
        for one in world.prey() {
            assert!(one.velocity().magnitude().raw() <= one.max_speed().raw());
        }
    }
    assert!(highest > 17);
}

#[test]
fn test_update_parameters_leaves_living_agents_alone() {
    let mut world = empty_world(100);
    world.spawn_predators(2);
    let mut params = *world.parameters();
    params.predator.max_speed = fx(9.0);
    params.predator.initial_energy = fx(33.0);
    world.update_parameters(params);
    world.spawn_predators(1);
    let speeds: Vec<Scalar> = world.predators().iter().map(|p| p.max_speed()).collect();
    assert_eq!(speeds, vec![fx(2.0), fx(2.0), fx(9.0)]);
    let energies: Vec<Scalar> = world.predators().iter().map(|p| p.energy()).collect();
    assert_eq!(energies, vec![fx(100.0), fx(100.0), fx(33.0)]);
    assert_eq!(world.average_predator_energy().raw(), 77_666_666_666_666);
}

#[test]
fn test_update_brings_a_crowded_world_under_a_lowered_ceiling() {
    let mut params = Parameters::default();
    params.predator.initial_count = 30;
    params.prey.initial_count = 50;
    // No predator sees a prey: none is caught.
    params.predator.perception_radius = fx(-1.0);
    let mut world = World::new(params);
    assert_eq!(world.total_agents(), 80);
    params.simulation.max_agents = 35;
    world.update_parameters(params);
    assert_eq!(world.total_agents(), 80);
    world.update();
    assert!(world.total_agents() <= 35);
    // No one died or was born: the oldest 45 left, predators first.
    assert_eq!(ids_of_predators(&world), Vec::<u32>::new());
    assert_eq!(ids_of_prey(&world), (46..=80).collect::<Vec<u32>>());
}
