// Parameters tests

use predator_prey_sim::config::parameters::{
    Parameters, PredatorParameters, PreyParameters, SimulationParameters, WorldParameters,
};
use predator_prey_sim::utils::fixed::Scalar;

fn fx(value: f64) -> Scalar {
    Scalar::from_raw((value * 1e12).round() as i64)
}

fn to_f64(value: Scalar) -> f64 {
    value.raw() as f64 / 1e12
}

#[test]
fn test_predator_parameters_default() {
    let params = PredatorParameters::default();
    assert!(to_f64(params.initial_energy) > 0.0);
    assert!(to_f64(params.max_speed) > 0.0);
    assert!(to_f64(params.perception_radius) > 0.0);
    assert!(to_f64(params.capture_distance) > 0.0);
}

#[test]
fn test_prey_parameters_default() {
    let params = PreyParameters::default();
    assert!(to_f64(params.initial_energy) > 0.0);
    assert!(to_f64(params.max_speed) > 0.0);
    assert!(to_f64(params.detection_radius) > 0.0);
}

#[test]
fn test_world_parameters_default() {
    let params = WorldParameters::default();
    assert!(to_f64(params.width) > 0.0);
    assert!(to_f64(params.height) > 0.0);
}

#[test]
fn test_simulation_parameters_default() {
    let params = SimulationParameters::default();
    assert!(to_f64(params.tick_rate) > 0.0);
    assert!(params.max_agents > 0);
}

#[test]
fn test_simulation_parameters_update_dt() {
    let mut params = SimulationParameters::default();
    params.tick_rate = fx(30.0);
    params.update_dt();
    assert_eq!(params.dt, fx(1.0 / 30.0));
}

#[test]
fn test_parameters_default() {
    let params = Parameters::default();
    assert!(params.validate().is_ok());
}

#[test]
fn test_parameters_validate_success() {
    let params = Parameters::default();
    assert!(params.validate().is_ok());
}

#[test]
fn test_parameters_validate_failure_negative_width() {
    let mut params = Parameters::default();
    params.world.width = fx(-10.0);
    assert!(params.validate().is_err());
}

#[test]
fn test_parameters_validate_failure_zero_speed() {
    let mut params = Parameters::default();
    params.predator.max_speed = fx(0.0);
    assert!(params.validate().is_err());
}

#[test]
fn test_parameters_validate_failure_zero_energy() {
    let mut params = Parameters::default();
    params.prey.initial_energy = fx(0.0);
    assert!(params.validate().is_err());
}

#[test]
fn test_default_values() {
    let params = Parameters::default();
    assert_eq!(params.predator.initial_energy, fx(100.0));
    assert_eq!(params.predator.max_speed, fx(2.0));
    assert_eq!(params.predator.perception_radius, fx(50.0));
    assert_eq!(params.predator.capture_distance, fx(5.0));
    assert_eq!(params.predator.energy_per_tick, fx(0.5));
    assert_eq!(params.predator.energy_gain_from_prey, fx(50.0));
    assert_eq!(params.predator.reproduction_threshold, fx(150.0));
    assert_eq!(params.predator.reproduction_cost, fx(80.0));
    assert_eq!(params.predator.initial_count, 10);
    assert_eq!(params.prey.initial_energy, fx(80.0));
    assert_eq!(params.prey.max_speed, fx(2.5));
    assert_eq!(params.prey.detection_radius, fx(60.0));
    assert_eq!(params.prey.flee_distance, fx(40.0));
    assert_eq!(params.prey.energy_regeneration, fx(0.3));
    assert_eq!(params.prey.energy_loss_fleeing, fx(0.2));
    assert_eq!(params.prey.reproduction_threshold, fx(120.0));
    assert_eq!(params.prey.reproduction_cost, fx(60.0));
    assert_eq!(params.prey.initial_count, 50);
    assert_eq!(params.world.width, fx(800.0));
    assert_eq!(params.world.height, fx(600.0));
    assert_eq!(params.world.food_spawn_rate, fx(0.01));
    assert_eq!(params.world.food_energy, fx(20.0));
    assert!(!params.world.enable_food);
    assert_eq!(params.simulation.tick_rate, fx(60.0));
    assert_eq!(params.simulation.max_agents, 1000);
    assert!(params.simulation.enable_reproduction);
    assert_eq!(params.simulation.dt.raw(), 16_666_666_666);
}

#[test]
fn test_validate_names_the_first_broken_constraint() {
    let mut params = Parameters::default();
    params.world.height = fx(0.0);
    params.prey.max_speed = fx(-1.0);
    params.predator.initial_energy = fx(0.0);
    params.simulation.tick_rate = fx(0.0);
    assert_eq!(params.validate(), Err("World dimensions must be positive".to_string()));

    params.world.height = fx(600.0);
    assert_eq!(params.validate(), Err("Agent speeds must be positive".to_string()));

    params.prey.max_speed = fx(2.5);
    assert_eq!(params.validate(), Err("Initial energy must be positive".to_string()));

    params.predator.initial_energy = fx(100.0);
    assert_eq!(params.validate(), Err("Tick rate must be positive".to_string()));

    params.simulation.tick_rate = Scalar::from_raw(1);
    assert_eq!(params.validate(), Ok(()));
}

#[test]
fn test_validate_each_constraint_alone() {
    let mut params = Parameters::default();
    params.world.width = fx(0.0);
    assert_eq!(params.validate(), Err("World dimensions must be positive".to_string()));

    let mut params = Parameters::default();
    params.predator.max_speed = fx(-0.5);
    assert_eq!(params.validate(), Err("Agent speeds must be positive".to_string()));

    let mut params = Parameters::default();
    params.prey.initial_energy = fx(-80.0);
    assert_eq!(params.validate(), Err("Initial energy must be positive".to_string()));

    let mut params = Parameters::default();
    params.simulation.tick_rate = fx(-60.0);
    assert_eq!(params.validate(), Err("Tick rate must be positive".to_string()));
}

#[test]
fn test_update_dt_with_zero_tick_rate_saturates() {
    let mut params = SimulationParameters::default();
    params.tick_rate = fx(0.0);
    params.update_dt();
    assert_eq!(params.dt.raw(), i64::MAX);
    params.tick_rate = fx(60.0);
    params.update_dt();
    assert_eq!(params.dt.raw(), 16_666_666_666);
    params.tick_rate = fx(-4.0);
    params.update_dt();
    assert_eq!(params.dt, fx(-0.25));
}
