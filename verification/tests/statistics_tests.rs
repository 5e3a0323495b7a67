// Statistics collector tests

use predator_prey_sim::statistics::{Statistics, StatisticsCollector};
use predator_prey_sim::utils::fixed::Scalar;

fn fx(value: f64) -> Scalar {
    Scalar::from_raw((value * 1e12).round() as i64)
}

#[test]
fn test_new_collector_is_empty() {
    let collector = StatisticsCollector::new(5);
    assert_eq!(collector.data().len(), 0);
    assert_eq!(collector.current_tick(), 0);
    assert!(collector.latest().is_none());
    let stats = collector.stats();
    assert_eq!(stats.data_points, 0);
    assert_eq!(stats.max_predators, 0);
    assert_eq!(stats.min_predators, 0);
    assert_eq!(stats.average_predators, fx(0.0));
    assert_eq!(stats.average_prey_energy, fx(0.0));
    let none = Statistics::default();
    assert_eq!(none.data_points, 0);
    assert_eq!(none.average_prey, fx(0.0));
}

#[test]
fn test_record_keeps_the_latest_points() {
    let mut collector = StatisticsCollector::new(3);
    for i in 0..5usize {
        collector.record(i, 10 * i, fx(i as f64), fx(2.0 * i as f64));
    }
    assert_eq!(collector.current_tick(), 5);
    let ticks: Vec<u64> = collector.data().iter().map(|p| p.tick).collect();
    assert_eq!(ticks, vec![2, 3, 4]);
    let counts: Vec<usize> = collector.data().iter().map(|p| p.predator_count).collect();
    assert_eq!(counts, vec![2, 3, 4]);
    let latest = collector.latest().unwrap();
    assert_eq!(latest.tick, 4);
    assert_eq!(latest.prey_count, 40);
    assert_eq!(latest.prey_energy, fx(8.0));
}

#[test]
fn test_stats_summarise_the_history() {
    let mut collector = StatisticsCollector::new(10);
    collector.record(10, 50, fx(100.0), fx(80.0));
    collector.record(12, 45, fx(90.5), fx(81.0));
    collector.record(7, 61, fx(-3.0), fx(82.5));
    let stats = collector.stats();
    assert_eq!(stats.data_points, 3);
    assert_eq!(stats.max_predators, 12);
    assert_eq!(stats.min_predators, 7);
    assert_eq!(stats.max_prey, 61);
    assert_eq!(stats.min_prey, 45);
    // 29 / 3 and 156 / 3
    assert_eq!(stats.average_predators.raw(), 9_666_666_666_666);
    assert_eq!(stats.average_prey, fx(52.0));
    // 187.5 / 3 and 243.5 / 3
    assert_eq!(stats.average_predator_energy, fx(62.5));
    assert_eq!(stats.average_prey_energy.raw(), 81_166_666_666_666);
}

#[test]
fn test_stats_of_negative_energies_round_toward_zero() {
    let mut collector = StatisticsCollector::new(10);
    collector.record(0, 0, fx(-1.0), fx(0.0));
    collector.record(0, 0, fx(0.0), fx(0.0));
    collector.record(0, 0, fx(0.0), fx(0.0));
    let stats = collector.stats();
    assert_eq!(stats.average_predator_energy.raw(), -333_333_333_333);
    assert_eq!(stats.min_predators, 0);
    assert_eq!(stats.max_prey, 0);
    assert_eq!(stats.average_prey, fx(0.0));
}

#[test]
fn test_clear_starts_over() {
    let mut collector = StatisticsCollector::new(4);
    collector.record(1, 2, fx(3.0), fx(4.0));
    collector.record(5, 6, fx(7.0), fx(8.0));
    collector.clear();
    assert_eq!(collector.data().len(), 0);
    assert_eq!(collector.current_tick(), 0);
    assert!(collector.latest().is_none());
    collector.record(9, 9, fx(9.0), fx(9.0));
    assert_eq!(collector.latest().unwrap().tick, 0);
}

#[test]
fn test_history_without_room_keeps_one_point() {
    let mut collector = StatisticsCollector::new(0);
    collector.record(1, 1, fx(1.0), fx(1.0));
    collector.record(2, 2, fx(2.0), fx(2.0));
    collector.record(3, 3, fx(3.0), fx(3.0));
    assert_eq!(collector.data().len(), 1);
    assert_eq!(collector.latest().unwrap().predator_count, 3);
    assert_eq!(collector.stats().average_predators, fx(3.0));
}

#[test]
fn test_largest_counts_average_saturates() {
    let mut collector = StatisticsCollector::new(4);
    collector.record(usize::MAX, 3, fx(0.0), fx(0.0));
    collector.record(usize::MAX, 4, fx(0.0), fx(0.0));
    let stats = collector.stats();
    assert_eq!(stats.max_predators, usize::MAX);
    // A smallest count equal to the largest number counts as none.
    assert_eq!(stats.min_predators, 0);
    assert_eq!(stats.average_predators.raw(), i64::MAX);
    assert_eq!(stats.average_prey, fx(3.5));
}
