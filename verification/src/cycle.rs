//! The bodies of the two periodic tasks: one cycle of the sampler and one
//! cycle of the policy task. Whoever runs the tasks reads the clock and the
//! sensor before a cycle and hands the command to the actuator after it.

use vstd::prelude::*;
use crate::aggregate::{aggregate, mean_of, WindowSpec};
use crate::policy::{command_between, step, Command, Observation, PolicyState, Thresholds};
use crate::sample::{samples_within, Sample};
use crate::store::{retain_last, SampleStore};

verus! {

/// One cycle of the sampler: a reading taken at `now` is written to the
/// store; a failed read, `None`, leaves the store as it is.
///
/// Returns whether a sample was written.
pub fn sampler_cycle<const N: usize>(store: &mut SampleStore<N>, now: u64, reading: Option<i32>)
    -> (written: bool)
    ensures
        written == reading.is_some(),
        final(store)@ == match reading {
            Some(value) => retain_last(
                old(store)@.push((Sample { timestamp: now, value })),
                N as nat,
            ),
            None => old(store)@,
        },
{
    match reading {
        Some(value) => {
            store.append(Sample { timestamp: now, value });
            true
        },
        None => false,
    }
}

/// One cycle of the policy task at `now`: aggregates the samples of the
/// window, evaluates the policy on the result, keeps the new state in
/// `state`, and returns the command for the actuator, `None` where the mode
/// stays.
pub fn policy_cycle<const N: usize>(
    store: &SampleStore<N>,
    now: u64,
    window: &WindowSpec,
    state: &mut PolicyState,
    thresholds: &Thresholds,
) -> (command: Option<Command>)
    ensures
        *final(state) == step(
            *old(state),
            (Observation {
                aggregated: mean_of(samples_within(store@, now, window.duration)),
                now,
            }),
            *thresholds,
        ),
        command == command_between(old(state).current_mode, final(state).current_mode),
{
    let aggregated = aggregate(store, now, window);
    state.evaluate(aggregated, now, thresholds)
}

} // verus!
