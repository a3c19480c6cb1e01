//! Hysteresis policy: from the aggregated temperature to the operating mode,
//! with a dead band around each setpoint and a cooldown between mode changes.

use vstd::prelude::*;
use crate::aggregate::AggregatedValue;

verus! {

/// Operating mode of the unit.
#[derive(Clone, Copy, Debug, PartialEq, Eq, Structural)]
pub enum Mode {
    Idle,
    Heating,
    Cooling,
}

/// A command for the actuator.
#[derive(Clone, Copy, Debug, PartialEq, Eq, Structural)]
pub enum Command {
    SetIdle,
    SetHeating,
    SetCooling,
}

/// The mode the unit is in and when it last changed.
#[derive(Clone, Copy, Debug, PartialEq, Eq)]
pub struct PolicyState {
    pub current_mode: Mode,
    /// Time of the last mode change in milliseconds, `None` as long as the
    /// mode has never changed.
    pub last_transition_time: Option<u64>,
}

/// Configuration of the policy. Temperatures are in thousandths of a degree
/// Celsius, the cooldown in milliseconds.
#[derive(Clone, Copy, Debug, PartialEq, Eq, Structural)]
pub struct Thresholds {
    pub low_setpoint: i32,
    pub high_setpoint: i32,
    pub hysteresis_band: i32,
    pub cooldown_duration: u64,
}

/// Whether a mode change at `now` would come sooner than the cooldown allows
/// after the last one. The difference is taken over the mathematical integers.
pub open spec fn in_cooldown(state: PolicyState, now: u64, thresholds: Thresholds) -> bool {
    match state.last_transition_time {
        Some(last) => now - last < thresholds.cooldown_duration,
        None => false,
    }
}

/// The mode that the hysteresis bands give for a mean, cooldown aside.
pub open spec fn band_mode(mode: Mode, mean: AggregatedValue, thresholds: Thresholds) -> Mode {
    match mode {
        Mode::Idle => if mean.is_below(thresholds.low_setpoint as int) {
            Mode::Heating
        } else if mean.is_above(thresholds.high_setpoint as int) {
            Mode::Cooling
        } else {
            Mode::Idle
        },
        Mode::Heating => if mean.is_at_least(thresholds.low_setpoint + thresholds.hysteresis_band) {
            Mode::Idle
        } else {
            Mode::Heating
        },
        Mode::Cooling => if mean.is_at_most(thresholds.high_setpoint - thresholds.hysteresis_band) {
            Mode::Idle
        } else {
            Mode::Cooling
        },
    }
}

/// The mode after one evaluation: the current one while there is no data or
/// the cooldown runs, else the one that the bands give.
pub open spec fn next_mode(
    aggregated: Option<AggregatedValue>,
    now: u64,
    state: PolicyState,
    thresholds: Thresholds,
) -> Mode {
    match aggregated {
        Some(mean) => if mean.count == 0 || in_cooldown(state, now, thresholds) {
            state.current_mode
        } else {
            band_mode(state.current_mode, mean, thresholds)
        },
        None => state.current_mode,
    }
}

/// The command that sets the actuator to `mode`.
pub open spec fn command_for(mode: Mode) -> Command {
    match mode {
        Mode::Idle => Command::SetIdle,
        Mode::Heating => Command::SetHeating,
        Mode::Cooling => Command::SetCooling,
    }
}

/// The command that a change from `from` to `to` calls for: none where the
/// mode stays.
pub open spec fn command_between(from: Mode, to: Mode) -> Option<Command> {
    if from == to {
        None
    } else {
        Some(command_for(to))
    }
}

/// The state after the mode was found to be `mode` at `now`: a change of mode
/// is stamped with `now`, a stay leaves the state as it is.
pub open spec fn state_after(state: PolicyState, mode: Mode, now: u64) -> PolicyState {
    if mode == state.current_mode {
        state
    } else {
        PolicyState { current_mode: mode, last_transition_time: Some(now) }
    }
}

/// What the policy is shown in one evaluation.
#[derive(Clone, Copy, Debug)]
pub struct Observation {
    /// The aggregated temperature, `None` where there is no data.
    pub aggregated: Option<AggregatedValue>,
    /// The time of the evaluation in milliseconds.
    pub now: u64,
}

/// The state after one evaluation.
pub open spec fn step(state: PolicyState, observation: Observation, thresholds: Thresholds)
    -> PolicyState {
    state_after(
        state,
        next_mode(observation.aggregated, observation.now, state, thresholds),
        observation.now,
    )
}

/// The state after the evaluations of `trace`, first to last.
pub open spec fn run(state: PolicyState, trace: Seq<Observation>, thresholds: Thresholds)
    -> PolicyState
    decreases trace.len(),
{
    if trace.len() == 0 {
        state
    } else {
        step(run(state, trace.drop_last(), thresholds), trace.last(), thresholds)
    }
}

/// Whether the evaluation of `trace[i]` changes the mode.
pub open spec fn changes_mode_at(
    state: PolicyState,
    trace: Seq<Observation>,
    thresholds: Thresholds,
    i: int,
) -> bool {
    run(state, trace.take(i), thresholds).current_mode != run(
        state,
        trace.take(i + 1),
        thresholds,
    ).current_mode
}

impl Mode {
    /// The command that sets the actuator to this mode.
    pub fn command(self) -> (command: Command)
        ensures
            command == command_for(self),
    {
        match self {
            Mode::Idle => Command::SetIdle,
            Mode::Heating => Command::SetHeating,
            Mode::Cooling => Command::SetCooling,
        }
    }
}

impl PolicyState {
    /// The state at startup: idle, with no earlier mode change, so that no
    /// cooldown holds back the first evaluation.
    pub fn initial() -> (state: PolicyState)
        ensures
            state.current_mode == Mode::Idle,
            state.last_transition_time.is_none(),
            forall|now: u64, thresholds: Thresholds| !in_cooldown(state, now, thresholds),
    {
        PolicyState { current_mode: Mode::Idle, last_transition_time: None }
    }

    /// Whether the cooldown after the last mode change still runs at `now`.
    pub fn locked_out(&self, now: u64, thresholds: &Thresholds) -> (r: bool)
        ensures
            r == in_cooldown(*self, now, *thresholds),
    {
        match self.last_transition_time {
            Some(last) => now < last || now - last < thresholds.cooldown_duration,
            None => false,
        }
    }

    /// Records that the mode was found to be `mode` at `now`.
    pub fn record(&mut self, mode: Mode, now: u64)
        ensures
            *final(self) == state_after(*old(self), mode, now),
    {
        if mode != self.current_mode {
            self.current_mode = mode;
            self.last_transition_time = Some(now);
        }
    }

    /// One evaluation of the policy on this state: decides the mode, records
    /// it, and returns the command to issue, `None` where the mode stays.
    pub fn evaluate(&mut self, aggregated: Option<AggregatedValue>, now: u64, thresholds: &Thresholds)
        -> (command: Option<Command>)
        ensures
            *final(self) == step(*old(self), (Observation { aggregated, now }), *thresholds),
            command == command_between(old(self).current_mode, final(self).current_mode),
    {
        let (mode, command) = decide(aggregated, now, self, thresholds);
        self.record(mode, now);
        command
    }
}

/// One evaluation of the policy: the mode to be in after it, and the command
/// to issue, which is `None` where the mode stays.
pub fn decide(
    aggregated: Option<AggregatedValue>,
    now: u64,
    state: &PolicyState,
    thresholds: &Thresholds,
) -> (decision: (Mode, Option<Command>))
    ensures
        decision.0 == next_mode(aggregated, now, *state, *thresholds),
        decision.1 == command_between(state.current_mode, decision.0),
{
    let mean = match aggregated {
        Some(mean) => mean,
        None => {
            return (state.current_mode, None);
        },
    };
    if mean.count == 0 || state.locked_out(now, thresholds) {
        return (state.current_mode, None);
    }
    let low: i64 = thresholds.low_setpoint as i64;
    let high: i64 = thresholds.high_setpoint as i64;
    let band: i64 = thresholds.hysteresis_band as i64;
    let mode = match state.current_mode {
        Mode::Idle => if mean.below(low) {
            Mode::Heating
        } else if mean.above(high) {
            Mode::Cooling
        } else {
            Mode::Idle
        },
        Mode::Heating => if mean.at_least(low + band) {
            Mode::Idle
        } else {
            Mode::Heating
        },
        Mode::Cooling => if mean.at_most(high - band) {
            Mode::Idle
        } else {
            Mode::Cooling
        },
    };
    if mode == state.current_mode {
        (mode, None)
    } else {
        (mode, Some(mode.command()))
    }
}

/// Unfolds `run` at the evaluation of `trace[k]`.
proof fn lemma_run_unfold(
    state: PolicyState,
    trace: Seq<Observation>,
    thresholds: Thresholds,
    k: int,
)
    requires
        0 <= k < trace.len(),
    ensures
        run(state, trace.take(k + 1), thresholds) == step(
            run(state, trace.take(k), thresholds),
            trace[k],
            thresholds,
        ),
{
    assert(trace.take(k + 1).drop_last() =~= trace.take(k));
}

/// After a mode change at `trace[i]`, the last mode change recorded in any
/// later state is that one, or one that came at least a cooldown after it.
proof fn lemma_last_transition_after(
    state: PolicyState,
    trace: Seq<Observation>,
    thresholds: Thresholds,
    i: int,
    k: int,
)
    requires
        0 <= i < k <= trace.len(),
        changes_mode_at(state, trace, thresholds, i),
    ensures
        match run(state, trace.take(k), thresholds).last_transition_time {
            Some(last) => last == trace[i].now || last - trace[i].now
                >= thresholds.cooldown_duration,
            None => false,
        },
    decreases k - i,
{
    lemma_run_unfold(state, trace, thresholds, k - 1);
    if k - 1 > i {
        lemma_last_transition_after(state, trace, thresholds, i, k - 1);
    }
}

/// The policy never changes the mode twice within the cooldown: between any
/// two mode changes in a run of evaluations, whatever the aggregated values
/// and the timestamps, at least `cooldown_duration` passes.
pub proof fn lemma_cooldown_separates_transitions(
    state: PolicyState,
    trace: Seq<Observation>,
    thresholds: Thresholds,
    i: int,
    j: int,
)
    requires
        0 <= i < j < trace.len(),
        changes_mode_at(state, trace, thresholds, i),
        changes_mode_at(state, trace, thresholds, j),
    ensures
        trace[j].now - trace[i].now >= thresholds.cooldown_duration,
{
    lemma_last_transition_after(state, trace, thresholds, i, j);
    lemma_run_unfold(state, trace, thresholds, j);
}

/// The last mode change recorded before `trace[k]` is the one that `state`
/// records, or came at least a cooldown after it.
proof fn lemma_last_transition_since(
    state: PolicyState,
    trace: Seq<Observation>,
    thresholds: Thresholds,
    k: int,
)
    requires
        0 <= k <= trace.len(),
        state.last_transition_time.is_some(),
    ensures
        match run(state, trace.take(k), thresholds).last_transition_time {
            Some(last) => last == state.last_transition_time.unwrap() || last
                - state.last_transition_time.unwrap() >= thresholds.cooldown_duration,
            None => false,
        },
    decreases k,
{
    if k == 0 {
        assert(trace.take(0) =~= Seq::<Observation>::empty());
    } else {
        lemma_last_transition_since(state, trace, thresholds, k - 1);
        lemma_run_unfold(state, trace, thresholds, k - 1);
    }
}

/// Nor does it change the mode within the cooldown of a mode change that the
/// state it starts from records.
pub proof fn lemma_cooldown_after_recorded_transition(
    state: PolicyState,
    trace: Seq<Observation>,
    thresholds: Thresholds,
    j: int,
)
    requires
        0 <= j < trace.len(),
        state.last_transition_time.is_some(),
        changes_mode_at(state, trace, thresholds, j),
    ensures
        trace[j].now - state.last_transition_time.unwrap() >= thresholds.cooldown_duration,
{
    lemma_last_transition_since(state, trace, thresholds, j);
    lemma_run_unfold(state, trace, thresholds, j);
}

/// An evaluation that does not change the mode leaves the whole state as it
/// is: a stay does not restart the cooldown.
pub proof fn lemma_stay_keeps_state(
    state: PolicyState,
    trace: Seq<Observation>,
    thresholds: Thresholds,
    i: int,
)
    requires
        0 <= i < trace.len(),
        !changes_mode_at(state, trace, thresholds, i),
    ensures
        run(state, trace.take(i + 1), thresholds) == run(state, trace.take(i), thresholds),
{
    lemma_run_unfold(state, trace, thresholds, i);
}

/// From `Idle`, once the cooldown is over and with thresholds whose low
/// setpoint is not above the high one, the policy enters `Heating` exactly
/// when the mean is strictly below the low setpoint and `Cooling` exactly when
/// it is strictly above the high setpoint; the two never hold together.
/// While the cooldown runs it stays `Idle`.
pub proof fn lemma_idle_exits(
    mean: AggregatedValue,
    now: u64,
    state: PolicyState,
    thresholds: Thresholds,
)
    requires
        state.current_mode == Mode::Idle,
        mean.count > 0,
        thresholds.low_setpoint <= thresholds.high_setpoint,
    ensures
        next_mode(Some(mean), now, state, thresholds) == Mode::Heating <==> !in_cooldown(
            state,
            now,
            thresholds,
        ) && mean.is_below(thresholds.low_setpoint as int),
        next_mode(Some(mean), now, state, thresholds) == Mode::Cooling <==> !in_cooldown(
            state,
            now,
            thresholds,
        ) && mean.is_above(thresholds.high_setpoint as int),
        !(mean.is_below(thresholds.low_setpoint as int) && mean.is_above(
            thresholds.high_setpoint as int,
        )),
{
    let low = thresholds.low_setpoint as int;
    let high = thresholds.high_setpoint as int;
    let count = mean.count as int;
    assert(low * count <= high * count) by (nonlinear_arith)
        requires
            low <= high,
            count > 0,
    ;
}

/// From `Heating`, the policy returns to `Idle` exactly when there is data,
/// the cooldown is over and the mean has reached the low setpoint plus the
/// hysteresis band; in every other case it stays in `Heating`.
pub proof fn lemma_heating_exits(
    aggregated: Option<AggregatedValue>,
    now: u64,
    state: PolicyState,
    thresholds: Thresholds,
)
    requires
        state.current_mode == Mode::Heating,
    ensures
        next_mode(aggregated, now, state, thresholds) == Mode::Idle <==> {
            &&& aggregated matches Some(mean)
            &&& mean.count > 0
            &&& !in_cooldown(state, now, thresholds)
            &&& mean.is_at_least(thresholds.low_setpoint + thresholds.hysteresis_band)
        },
        next_mode(aggregated, now, state, thresholds) != Mode::Idle ==> next_mode(
            aggregated,
            now,
            state,
            thresholds,
        ) == Mode::Heating,
{
}

/// From `Cooling`, the policy returns to `Idle` exactly when there is data,
/// the cooldown is over and the mean has come down to the high setpoint minus
/// the hysteresis band; in every other case it stays in `Cooling`.
pub proof fn lemma_cooling_exits(
    aggregated: Option<AggregatedValue>,
    now: u64,
    state: PolicyState,
    thresholds: Thresholds,
)
    requires
        state.current_mode == Mode::Cooling,
    ensures
        next_mode(aggregated, now, state, thresholds) == Mode::Idle <==> {
            &&& aggregated matches Some(mean)
            &&& mean.count > 0
            &&& !in_cooldown(state, now, thresholds)
            &&& mean.is_at_most(thresholds.high_setpoint - thresholds.hysteresis_band)
        },
        next_mode(aggregated, now, state, thresholds) != Mode::Idle ==> next_mode(
            aggregated,
            now,
            state,
            thresholds,
        ) == Mode::Cooling,
{
}

/// While every mean shown stays below the low setpoint plus the hysteresis
/// band, a policy in `Heating` never changes its state, however the mean
/// moves about the low setpoint.
pub proof fn lemma_heating_persists_below_band(
    state: PolicyState,
    trace: Seq<Observation>,
    thresholds: Thresholds,
)
    requires
        state.current_mode == Mode::Heating,
        forall|i: int|
            0 <= i < trace.len() ==> (#[trigger] trace[i].aggregated matches Some(mean)
                ==> mean.is_below(thresholds.low_setpoint + thresholds.hysteresis_band)),
    ensures
        run(state, trace, thresholds) == state,
    decreases trace.len(),
{
    if trace.len() > 0 {
        let front = trace.drop_last();
        assert forall|i: int| 0 <= i < front.len() implies (#[trigger] front[i].aggregated matches Some(
            mean,
        ) ==> mean.is_below(thresholds.low_setpoint + thresholds.hysteresis_band)) by {
            assert(front[i] == trace[i]);
        }
        lemma_heating_persists_below_band(state, front, thresholds);
        assert(trace.last() == trace[trace.len() - 1]);
    }
}

/// While every mean shown stays above the high setpoint minus the hysteresis
/// band, a policy in `Cooling` never changes its state.
pub proof fn lemma_cooling_persists_above_band(
    state: PolicyState,
    trace: Seq<Observation>,
    thresholds: Thresholds,
)
    requires
        state.current_mode == Mode::Cooling,
        forall|i: int|
            0 <= i < trace.len() ==> (#[trigger] trace[i].aggregated matches Some(mean)
                ==> mean.is_above(thresholds.high_setpoint - thresholds.hysteresis_band)),
    ensures
        run(state, trace, thresholds) == state,
    decreases trace.len(),
{
    if trace.len() > 0 {
        let front = trace.drop_last();
        assert forall|i: int| 0 <= i < front.len() implies (#[trigger] front[i].aggregated matches Some(
            mean,
        ) ==> mean.is_above(thresholds.high_setpoint - thresholds.hysteresis_band)) by {
            assert(front[i] == trace[i]);
        }
        lemma_cooling_persists_above_band(state, front, thresholds);
        assert(trace.last() == trace[trace.len() - 1]);
    }
}

/// Without data the policy does nothing: the state stays as it is, whatever
/// the time.
pub proof fn lemma_no_data_holds(state: PolicyState, now: u64, thresholds: Thresholds)
    ensures
        step(state, (Observation { aggregated: None, now }), thresholds) == state,
{
}

} // verus!
