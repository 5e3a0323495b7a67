//! Time series of population counts and energies, and their summary.

use vstd::prelude::*;
use std::collections::VecDeque;
use crate::utils::fixed::{Scalar, SCALE, lemma_mean_in_range, saturate, trunc_div};

verus! {

/// Data point for time series.
#[derive(Debug, Clone, Copy)]
pub struct DataPoint {
    pub tick: u64,
    pub predator_count: usize,
    pub prey_count: usize,
    pub predator_energy: Scalar,
    pub prey_energy: Scalar,
}

/// Calculated statistics.
#[derive(Debug, Clone, Copy)]
pub struct Statistics {
    pub average_predators: Scalar,
    pub average_prey: Scalar,
    pub max_predators: usize,
    pub max_prey: usize,
    pub min_predators: usize,
    pub min_prey: usize,
    pub average_predator_energy: Scalar,
    pub average_prey_energy: Scalar,
    pub data_points: usize,
}

impl Statistics {
    /// The statistics of no data: all zero.
    pub open spec fn empty() -> Statistics {
        Statistics {
            average_predators: Scalar { raw: 0 },
            average_prey: Scalar { raw: 0 },
            max_predators: 0,
            max_prey: 0,
            min_predators: 0,
            min_prey: 0,
            average_predator_energy: Scalar { raw: 0 },
            average_prey_energy: Scalar { raw: 0 },
            data_points: 0,
        }
    }
}

impl Default for Statistics {
    fn default() -> (s: Self)
        ensures
            s == Statistics::empty(),
    {
        Statistics {
            average_predators: Scalar::zero(),
            average_prey: Scalar::zero(),
            max_predators: 0,
            max_prey: 0,
            min_predators: 0,
            min_prey: 0,
            average_predator_energy: Scalar::zero(),
            average_prey_energy: Scalar::zero(),
            data_points: 0,
        }
    }
}

/// A number read off a data point.
pub type Reading = spec_fn(DataPoint) -> int;

/// The number of predators of a data point.
pub open spec fn predator_count_of() -> Reading {
    |p: DataPoint| p.predator_count as int
}

/// The number of prey of a data point.
pub open spec fn prey_count_of() -> Reading {
    |p: DataPoint| p.prey_count as int
}

/// The mean predator energy of a data point, in raw units.
pub open spec fn predator_energy_of() -> Reading {
    |p: DataPoint| p.predator_energy@
}

/// The mean prey energy of a data point, in raw units.
pub open spec fn prey_energy_of() -> Reading {
    |p: DataPoint| p.prey_energy@
}

/// The readings of all points added up.
pub open spec fn sum_of(points: Seq<DataPoint>, reading: Reading) -> int
    decreases points.len(),
{
    if points.len() == 0 {
        0
    } else {
        sum_of(points.drop_last(), reading) + reading(points.last())
    }
}

/// The largest reading of all points, and no less than `floor`.
pub open spec fn max_of(points: Seq<DataPoint>, reading: Reading, floor: int) -> int
    decreases points.len(),
{
    if points.len() == 0 {
        floor
    } else {
        let rest = max_of(points.drop_last(), reading, floor);
        if reading(points.last()) > rest {
            reading(points.last())
        } else {
            rest
        }
    }
}

/// The smallest reading of all points, and no more than `ceiling`.
pub open spec fn min_of(points: Seq<DataPoint>, reading: Reading, ceiling: int) -> int
    decreases points.len(),
{
    if points.len() == 0 {
        ceiling
    } else {
        let rest = min_of(points.drop_last(), reading, ceiling);
        if reading(points.last()) < rest {
            reading(points.last())
        } else {
            rest
        }
    }
}

/// The smallest count of all points; zero where that is the largest `usize`.
pub open spec fn least_count(points: Seq<DataPoint>, reading: Reading) -> int {
    let least = min_of(points, reading, usize::MAX as int);
    if least == usize::MAX {
        0
    } else {
        least
    }
}

/// The mean of counts that add up to `total`, as a fixed-point number
/// rounded down.
pub open spec fn mean_count(total: int, points: int) -> Scalar {
    Scalar { raw: saturate((total * SCALE) / points) as i64 }
}

/// The mean of energies that add up to `total` raw units, rounded toward
/// zero.
pub open spec fn mean_energy(total: int, points: int) -> Scalar {
    Scalar { raw: saturate(trunc_div(total, points)) as i64 }
}

/// The summary of a series; that of an empty one is all zero.
pub open spec fn summary(points: Seq<DataPoint>) -> Statistics {
    if points.len() == 0 {
        Statistics::empty()
    } else {
        Statistics {
            average_predators: mean_count(sum_of(points, predator_count_of()), points.len() as int),
            average_prey: mean_count(sum_of(points, prey_count_of()), points.len() as int),
            max_predators: max_of(points, predator_count_of(), 0) as usize,
            max_prey: max_of(points, prey_count_of(), 0) as usize,
            min_predators: least_count(points, predator_count_of()) as usize,
            min_prey: least_count(points, prey_count_of()) as usize,
            average_predator_energy: mean_energy(
                sum_of(points, predator_energy_of()),
                points.len() as int,
            ),
            average_prey_energy: mean_energy(sum_of(points, prey_energy_of()), points.len() as int),
            data_points: points.len() as usize,
        }
    }
}

/// The series after `point` was recorded: where the series had reached its
/// limit the oldest point left first.
pub open spec fn recorded(points: Seq<DataPoint>, limit: usize, point: DataPoint) -> Seq<
    DataPoint,
> {
    if points.len() >= limit && points.len() > 0 {
        points.skip(1).push(point)
    } else {
        points.push(point)
    }
}

/// Sums, largest and smallest readings of a series one point longer.
pub proof fn lemma_one_more(points: Seq<DataPoint>, count: int, reading: Reading, bound: int)
    requires
        0 <= count < points.len(),
    ensures
        sum_of(points.take(count + 1), reading) == sum_of(points.take(count), reading) + reading(
            points[count],
        ),
        max_of(points.take(count + 1), reading, bound) == if reading(points[count]) > max_of(
            points.take(count),
            reading,
            bound,
        ) {
            reading(points[count])
        } else {
            max_of(points.take(count), reading, bound)
        },
        min_of(points.take(count + 1), reading, bound) == if reading(points[count]) < min_of(
            points.take(count),
            reading,
            bound,
        ) {
            reading(points[count])
        } else {
            min_of(points.take(count), reading, bound)
        },
{
    let grown = points.take(count + 1);
    assert(grown.drop_last() == points.take(count));
    assert(grown.last() == points[count]);
}

/// The mean of `points` counts is the mean of the whole counts plus the
/// mean of what is left over.
pub proof fn lemma_mean_count(total: int, points: int)
    requires
        total >= 0,
        points > 0,
    ensures
        (total * SCALE) / points == (total / points) * SCALE + ((total % points) * SCALE) / points,
        0 <= (total % points) < points,
        0 <= total / points <= total,
{
    let q = total / points;
    let r = total % points;
    assert(total == q * points + r && 0 <= r < points && 0 <= q <= total) by (nonlinear_arith)
        requires
            q == total / points,
            r == total % points,
            total >= 0,
            points > 0,
    ;
    let s = SCALE as int;
    assert(total * s == (q * s) * points + r * s) by (nonlinear_arith)
        requires
            total == q * points + r,
    ;
    assert(r * s >= 0) by (nonlinear_arith)
        requires
            r >= 0,
            s > 0,
    ;
    let whole = (r * s) / points;
    let left = (r * s) % points;
    vstd::arithmetic::div_mod::lemma_fundamental_div_mod(r * s, points);
    assert(0 <= left < points) by (nonlinear_arith)
        requires
            left == (r * s) % points,
            points > 0,
    ;
    assert(total * s == (q * s + whole) * points + left) by (nonlinear_arith)
        requires
            total * s == (q * s) * points + r * s,
            r * s == points * whole + left,
    ;
    vstd::arithmetic::div_mod::lemma_fundamental_div_mod_converse(
        total * s,
        points,
        q * s + whole,
        left,
    );
}

/// Statistics collector with a bounded history.
pub struct StatisticsCollector {
    data: VecDeque<DataPoint>,
    max_history: usize,
    current_tick: u64,
}

impl StatisticsCollector {
    /// The recorded points, oldest first.
    pub closed spec fn history(&self) -> Seq<DataPoint> {
        self.data@
    }

    /// The number of points at which the oldest leaves for a new one.
    pub closed spec fn limit(&self) -> usize {
        self.max_history
    }

    /// The tick that the next point gets.
    pub closed spec fn tick(&self) -> u64 {
        self.current_tick
    }

    /// Create a new statistics collector.
    pub fn new(max_history: usize) -> (collector: StatisticsCollector)
        ensures
            collector.history().len() == 0,
            collector.limit() == max_history,
            collector.tick() == 0,
    {
        StatisticsCollector { data: VecDeque::new(), max_history, current_tick: 0 }
    }

    /// Record a data point with the current tick, after the oldest point
    /// left where the history had reached its limit. The tick then goes up by
    /// one, as long as there is a larger `u64`.
    pub fn record(
        &mut self,
        predator_count: usize,
        prey_count: usize,
        predator_energy: Scalar,
        prey_energy: Scalar,
    )
        ensures
            final(self).limit() == old(self).limit(),
            final(self).history() == recorded(
                old(self).history(),
                old(self).limit(),
                DataPoint {
                    tick: old(self).tick(),
                    predator_count,
                    prey_count,
                    predator_energy,
                    prey_energy,
                },
            ),
            final(self).tick() == if old(self).tick() < u64::MAX {
                (old(self).tick() + 1) as u64
            } else {
                old(self).tick()
            },
            old(self).limit() > 0 && old(self).history().len() <= old(self).limit()
                ==> final(self).history().len() <= old(self).limit(),
    {
        let point = DataPoint {
            tick: self.current_tick,
            predator_count,
            prey_count,
            predator_energy,
            prey_energy,
        };
        if self.data.len() >= self.max_history {
            self.data.pop_front();
        }
        self.data.push_back(point);
        if self.current_tick < u64::MAX {
            self.current_tick = self.current_tick + 1;
        }
    }

    /// Get all data points.
    pub fn data(&self) -> (points: &VecDeque<DataPoint>)
        ensures
            points@ == self.history(),
    {
        &self.data
    }

    /// Clear all data.
    pub fn clear(&mut self)
        ensures
            final(self).history().len() == 0,
            final(self).tick() == 0,
            final(self).limit() == old(self).limit(),
    {
        self.data.clear();
        self.current_tick = 0;
    }

    /// Get current tick.
    pub fn current_tick(&self) -> (tick: u64)
        ensures
            tick == self.tick(),
    {
        self.current_tick
    }

    /// Get latest data point.
    pub fn latest(&self) -> (point: Option<&DataPoint>)
        ensures
            self.history().len() == 0 ==> point is None,
            self.history().len() > 0 ==> point == Some(&self.history().last()),
    {
        if self.data.len() == 0 {
            None
        } else {
            Some(&self.data[self.data.len() - 1])
        }
    }

    /// Calculate statistics: means, largest and smallest counts over the
    /// recorded points.
    pub fn stats(&self) -> (statistics: Statistics)
        ensures
            statistics == summary(self.history()),
    {
        if self.data.len() == 0 {
            return Statistics::default();
        }
        let mut total_predators: u128 = 0;
        let mut total_prey: u128 = 0;
        let mut max_predators: usize = 0;
        let mut max_prey: usize = 0;
        let mut min_predators: usize = usize::MAX;
        let mut min_prey: usize = usize::MAX;
        let mut sum_predator_energy: i128 = 0;
        let mut sum_prey_energy: i128 = 0;

        let ghost points = self.data@;
        let mut i: usize = 0;
        while i < self.data.len()
            invariant
                i <= self.data@.len(),
                points == self.data@,
                total_predators == sum_of(points.take(i as int), predator_count_of()),
                total_prey == sum_of(points.take(i as int), prey_count_of()),
                total_predators <= i * usize::MAX,
                total_prey <= i * usize::MAX,
                max_predators == max_of(points.take(i as int), predator_count_of(), 0),
                max_prey == max_of(points.take(i as int), prey_count_of(), 0),
                min_predators == min_of(points.take(i as int), predator_count_of(), usize::MAX as int),
                min_prey == min_of(points.take(i as int), prey_count_of(), usize::MAX as int),
                sum_predator_energy == sum_of(points.take(i as int), predator_energy_of()),
                sum_prey_energy == sum_of(points.take(i as int), prey_energy_of()),
                i * i64::MIN <= sum_predator_energy <= i * i64::MAX,
                i * i64::MIN <= sum_prey_energy <= i * i64::MAX,
            decreases self.data@.len() - i,
        {
            proof {
                lemma_one_more(points, i as int, predator_count_of(), 0);
                lemma_one_more(points, i as int, prey_count_of(), 0);
                lemma_one_more(points, i as int, predator_count_of(), usize::MAX as int);
                lemma_one_more(points, i as int, prey_count_of(), usize::MAX as int);
                lemma_one_more(points, i as int, predator_energy_of(), 0);
                lemma_one_more(points, i as int, prey_energy_of(), 0);
                assert((i + 1) * usize::MAX == i * usize::MAX + usize::MAX) by (nonlinear_arith);
                assert((i + 1) * i64::MIN == i * i64::MIN + i64::MIN) by (nonlinear_arith);
                assert((i + 1) * i64::MAX == i * i64::MAX + i64::MAX) by (nonlinear_arith);
                assert(i * usize::MAX <= 0xffff_ffff_ffff_ffff * 0xffff_ffff_ffff_ffff)
                    by (nonlinear_arith)
                    requires
                        0 <= i <= 0xffff_ffff_ffff_ffff,
                        usize::MAX <= 0xffff_ffff_ffff_ffff,
                ;
                assert(-0x1_0000_0000_0000_0000 * 0x8000_0000_0000_0000 <= i * i64::MIN)
                    by (nonlinear_arith)
                    requires
                        0 <= i <= 0xffff_ffff_ffff_ffff,
                ;
                assert(i * i64::MAX <= 0x1_0000_0000_0000_0000 * 0x8000_0000_0000_0000)
                    by (nonlinear_arith)
                    requires
                        0 <= i <= 0xffff_ffff_ffff_ffff,
                ;
            }
            let point = self.data[i];
            total_predators = total_predators + point.predator_count as u128;
            total_prey = total_prey + point.prey_count as u128;
            if point.predator_count > max_predators {
                max_predators = point.predator_count;
            }
            if point.prey_count > max_prey {
                max_prey = point.prey_count;
            }
            if point.predator_count < min_predators {
                min_predators = point.predator_count;
            }
            if point.prey_count < min_prey {
                min_prey = point.prey_count;
            }
            sum_predator_energy = sum_predator_energy + point.predator_energy.raw as i128;
            sum_prey_energy = sum_prey_energy + point.prey_energy.raw as i128;
            i = i + 1;
        }
        assert(points.take(points.len() as int) == points);

        let count = self.data.len();
        Statistics {
            average_predators: count_mean(total_predators, count),
            average_prey: count_mean(total_prey, count),
            max_predators,
            max_prey,
            min_predators: if min_predators == usize::MAX {
                0
            } else {
                min_predators
            },
            min_prey: if min_prey == usize::MAX {
                0
            } else {
                min_prey
            },
            average_predator_energy: energy_mean(sum_predator_energy, count),
            average_prey_energy: energy_mean(sum_prey_energy, count),
            data_points: count,
        }
    }
}

/// The mean of `points` counts that add up to `total`.
fn count_mean(total: u128, points: usize) -> (mean: Scalar)
    requires
        points > 0,
        total <= points * usize::MAX,
    ensures
        mean == mean_count(total as int, points as int),
{
    proof {
        lemma_mean_count(total as int, points as int);
    }
    let whole: u128 = total / (points as u128);
    let left: u128 = total % (points as u128);
    assert(whole <= 0xffff_ffff_ffff_ffff) by (nonlinear_arith)
        requires
            whole == total / (points as u128),
            points > 0,
            total <= points * usize::MAX,
            usize::MAX <= 0xffff_ffff_ffff_ffff,
    ;
    assert(whole * SCALE <= 0xffff_ffff_ffff_ffff * 1_000_000_000_000) by (nonlinear_arith)
        requires
            0 <= whole <= 0xffff_ffff_ffff_ffff,
            SCALE == 1_000_000_000_000,
    ;
    assert(left * SCALE <= 0xffff_ffff_ffff_ffff * 1_000_000_000_000) by (nonlinear_arith)
        requires
            0 <= left <= 0xffff_ffff_ffff_ffff,
            SCALE == 1_000_000_000_000,
    ;
    let scaled: u128 = whole * (SCALE as u128) + (left * (SCALE as u128)) / (points as u128);
    if scaled > i64::MAX as u128 {
        Scalar { raw: i64::MAX }
    } else {
        Scalar { raw: scaled as i64 }
    }
}

/// The mean of `points` energies that add up to `total` raw units.
fn energy_mean(total: i128, points: usize) -> (mean: Scalar)
    requires
        points > 0,
        points * i64::MIN <= total <= points * i64::MAX,
    ensures
        mean == mean_energy(total as int, points as int),
{
    proof {
        lemma_mean_in_range(total as int, points as int);
    }
    Scalar { raw: (total / (points as i128)) as i64 }
}

} // verus!
