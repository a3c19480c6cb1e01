//! Windowed aggregation: the exact mean of the samples in a trailing window.

use vstd::prelude::*;
use crate::sample::{samples_within, Sample};
use crate::store::SampleStore;

verus! {

/// The trailing time window over which samples are aggregated.
#[derive(Clone, Copy, Debug, PartialEq, Eq, Structural)]
pub struct WindowSpec {
    /// Length of the window in milliseconds.
    pub duration: u64,
}

/// The arithmetic mean of `count` sample values whose sum is `sum`, kept as
/// that exact fraction.
///
/// A value with `count == 0` is the mean of nothing and carries no value.
#[derive(Clone, Copy, Debug, PartialEq, Eq, Structural)]
pub struct AggregatedValue {
    /// Sum of the sample values, in thousandths of a degree Celsius.
    pub sum: i128,
    /// Number of samples summed.
    pub count: u64,
}

impl AggregatedValue {
    /// The mean is strictly less than `threshold`.
    pub open spec fn is_below(self, threshold: int) -> bool {
        self.sum < threshold * self.count
    }

    /// The mean is strictly greater than `threshold`.
    pub open spec fn is_above(self, threshold: int) -> bool {
        self.sum > threshold * self.count
    }

    /// The mean is `threshold` or more.
    pub open spec fn is_at_least(self, threshold: int) -> bool {
        self.sum >= threshold * self.count
    }

    /// The mean is `threshold` or less.
    pub open spec fn is_at_most(self, threshold: int) -> bool {
        self.sum <= threshold * self.count
    }

    /// The product `threshold * self.count`, which always fits.
    fn scaled(&self, threshold: i64) -> (product: i128)
        ensures
            product == threshold * self.count,
    {
        let t: i128 = threshold as i128;
        let c: i128 = self.count as i128;
        assert(-0x8000_0000_0000_0000 * 0xffff_ffff_ffff_ffff <= t * c
            <= 0x7fff_ffff_ffff_ffff * 0xffff_ffff_ffff_ffff) by (nonlinear_arith)
            requires
                -0x8000_0000_0000_0000 <= t <= 0x7fff_ffff_ffff_ffff,
                0 <= c <= 0xffff_ffff_ffff_ffff,
        ;
        t * c
    }

    /// Whether the mean is strictly less than `threshold`.
    pub fn below(&self, threshold: i64) -> (r: bool)
        ensures
            r == self.is_below(threshold as int),
    {
        self.sum < self.scaled(threshold)
    }

    /// Whether the mean is strictly greater than `threshold`.
    pub fn above(&self, threshold: i64) -> (r: bool)
        ensures
            r == self.is_above(threshold as int),
    {
        self.sum > self.scaled(threshold)
    }

    /// Whether the mean is `threshold` or more.
    pub fn at_least(&self, threshold: i64) -> (r: bool)
        ensures
            r == self.is_at_least(threshold as int),
    {
        self.sum >= self.scaled(threshold)
    }

    /// Whether the mean is `threshold` or less.
    pub fn at_most(&self, threshold: i64) -> (r: bool)
        ensures
            r == self.is_at_most(threshold as int),
    {
        self.sum <= self.scaled(threshold)
    }
}

/// The sum of the values of `samples`.
pub open spec fn sum_of_values(samples: Seq<Sample>) -> int
    decreases samples.len(),
{
    if samples.len() == 0 {
        0
    } else {
        sum_of_values(samples.drop_last()) + samples.last().value
    }
}

/// The mean of the values of `samples`, or `None` where there are none.
pub open spec fn mean_of(samples: Seq<Sample>) -> Option<AggregatedValue> {
    if samples.len() == 0 {
        None
    } else {
        Some(AggregatedValue { sum: sum_of_values(samples) as i128, count: samples.len() as u64 })
    }
}

/// The mean of the values of the samples of `store` whose timestamp lies
/// between `now - window.duration` and `now`, both included.
///
/// Returns `None` exactly when no stored sample lies in the window.
pub fn aggregate<const N: usize>(store: &SampleStore<N>, now: u64, window: &WindowSpec) -> (mean:
    Option<AggregatedValue>)
    ensures
        mean == mean_of(samples_within(store@, now, window.duration)),
        match mean {
            Some(m) => {
                &&& m.count == samples_within(store@, now, window.duration).len()
                &&& m.count > 0
                &&& m.sum == sum_of_values(samples_within(store@, now, window.duration))
            },
            None => samples_within(store@, now, window.duration).len() == 0,
        },
{
    let mut cursor = store.snapshot_since(now, window.duration);
    let ghost all = cursor.remaining();
    let mut sum: i128 = 0;
    let mut count: u64 = 0;
    proof {
        assert(all.skip(0) =~= all);
        assert(all.take(0) =~= Seq::<Sample>::empty());
    }
    loop
        invariant
            all == samples_within(store@, now, window.duration),
            all.len() <= usize::MAX,
            count <= all.len(),
            cursor.remaining() == all.skip(count as int),
            sum == sum_of_values(all.take(count as int)),
            -0x8000_0000 * count <= sum <= 0x8000_0000 * count,
        decreases cursor.remaining().len(),
    {
        match cursor.next() {
            Some(sample) => {
                proof {
                    let k = count as int;
                    assert(all.skip(k)[0] == all[k]);
                    assert(all.skip(k).drop_first() =~= all.skip(k + 1));
                    assert(all.take(k + 1).drop_last() =~= all.take(k));
                }
                sum = sum + sample.value as i128;
                count = count + 1;
            },
            None => {
                proof {
                    assert(all.take(all.len() as int) =~= all);
                }
                if count == 0 {
                    return None;
                }
                return Some(AggregatedValue { sum, count });
            },
        }
    }
}

} // verus!
