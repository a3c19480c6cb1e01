//! Timestamped temperature readings and the trailing time window.

use vstd::prelude::*;

verus! {

/// One temperature reading.
///
/// `timestamp` is in milliseconds of monotonic time. `value` is the measured
/// temperature in thousandths of a degree Celsius.
#[derive(Clone, Copy, Debug, PartialEq, Eq, Structural)]
pub struct Sample {
    pub timestamp: u64,
    pub value: i32,
}

/// Whether `timestamp` lies in the closed interval from `now - window` to
/// `now`, taken over the mathematical integers.
pub open spec fn in_window(timestamp: u64, now: u64, window: u64) -> bool {
    now - window <= timestamp <= now
}

/// The predicate on samples that `in_window` induces for a fixed window.
pub open spec fn within(now: u64, window: u64) -> spec_fn(Sample) -> bool {
    |s: Sample| in_window(s.timestamp, now, window)
}

/// The samples of `samples` whose timestamp lies in the window, in the order
/// in which they occur in `samples`.
pub open spec fn samples_within(samples: Seq<Sample>, now: u64, window: u64) -> Seq<Sample> {
    samples.filter(within(now, window))
}

/// Unfolds `samples_within` at the front of a non-empty sequence.
pub proof fn lemma_samples_within_front(samples: Seq<Sample>, now: u64, window: u64)
    requires
        samples.len() > 0,
    ensures
        samples_within(samples, now, window) == if in_window(samples[0].timestamp, now, window) {
            seq![samples[0]] + samples_within(samples.drop_first(), now, window)
        } else {
            samples_within(samples.drop_first(), now, window)
        },
{
    let pred = within(now, window);
    let head = seq![samples[0]];
    assert(samples =~= head + samples.drop_first());
    Seq::filter_distributes_over_add(head, samples.drop_first(), pred);
    assert(head.filter(pred) =~= if pred(samples[0]) { head } else { Seq::empty() }) by {
        reveal_with_fuel(Seq::filter, 2);
        assert(head.drop_last() =~= Seq::<Sample>::empty());
    }
}

/// Whether the timestamps of `samples` never decrease from one sample to the
/// next.
pub open spec fn non_decreasing(samples: Seq<Sample>) -> bool {
    forall|i: int, j: int|
        0 <= i <= j < samples.len() ==> samples[i].timestamp <= samples[j].timestamp
}

/// A snapshot holds samples of the window only, and every stored sample of
/// the window: each sample of `samples_within` lies in the window and occurs
/// in `samples`, and each sample of `samples` that lies in the window occurs
/// in `samples_within`.
pub proof fn lemma_snapshot_exact(samples: Seq<Sample>, now: u64, window: u64)
    ensures
        forall|i: int|
            0 <= i < samples_within(samples, now, window).len() ==> {
                &&& in_window(
                    (#[trigger] samples_within(samples, now, window)[i]).timestamp,
                    now,
                    window,
                )
                &&& samples.contains(samples_within(samples, now, window)[i])
            },
        forall|i: int|
            0 <= i < samples.len() && in_window(samples[i].timestamp, now, window)
                ==> samples_within(samples, now, window).contains(#[trigger] samples[i]),
{
    let pred = within(now, window);
    let inside = samples.filter(pred);
    assert forall|i: int| 0 <= i < inside.len() implies in_window(
        (#[trigger] inside[i]).timestamp,
        now,
        window,
    ) && samples.contains(inside[i]) by {
        samples.lemma_filter_pred(pred, i);
        assert(inside.contains(inside[i]));
        samples.lemma_filter_contains_rev(pred, inside[i]);
    }
    assert forall|i: int|
        0 <= i < samples.len() && in_window(samples[i].timestamp, now, window) implies inside.contains(
        #[trigger] samples[i],
    ) by {
        assert(pred(samples[i]));
        samples.lemma_filter_contains(pred, i);
    }
}

/// A snapshot keeps the order of the store: where the timestamps of the
/// stored samples never decrease, those of the snapshot never decrease.
pub proof fn lemma_snapshot_non_decreasing(samples: Seq<Sample>, now: u64, window: u64)
    requires
        non_decreasing(samples),
    ensures
        non_decreasing(samples_within(samples, now, window)),
    decreases samples.len(),
{
    let pred = within(now, window);
    reveal(Seq::filter);
    if samples.len() > 0 {
        let front = samples.drop_last();
        let kept = front.filter(pred);
        assert(non_decreasing(front));
        lemma_snapshot_non_decreasing(front, now, window);
        if pred(samples.last()) {
            let inside = kept.push(samples.last());
            assert forall|i: int, j: int| 0 <= i <= j < inside.len() implies inside[i].timestamp
                <= inside[j].timestamp by {
                if j == kept.len() && i < j {
                    assert(kept.contains(kept[i]));
                    front.lemma_filter_contains_rev(pred, kept[i]);
                    let k = choose|k: int| 0 <= k < front.len() && front[k] == kept[i];
                    assert(samples[k] == kept[i]);
                }
            }
        }
    }
}

/// Taking the snapshot of a snapshot, with the same window, changes nothing.
pub proof fn lemma_snapshot_idempotent(samples: Seq<Sample>, now: u64, window: u64)
    ensures
        samples_within(samples_within(samples, now, window), now, window) == samples_within(
            samples,
            now,
            window,
        ),
    decreases samples.len(),
{
    let pred = within(now, window);
    reveal(Seq::filter);
    if samples.len() > 0 {
        let kept = samples.drop_last().filter(pred);
        lemma_snapshot_idempotent(samples.drop_last(), now, window);
        if pred(samples.last()) {
            assert(kept.push(samples.last()).drop_last() =~= kept);
        }
    }
}

impl Sample {
    /// Whether this sample was taken within the `window` milliseconds that
    /// end at `now`.
    pub fn is_within(&self, now: u64, window: u64) -> (r: bool)
        ensures
            r == in_window(self.timestamp, now, window),
    {
        self.timestamp <= now && now - self.timestamp <= window
    }
}

} // verus!
