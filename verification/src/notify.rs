use vstd::prelude::*;
use crate::check::{check_measurement, is_check_of, CheckedMeasurement};
use crate::measurement::Measurement;
use crate::config::NotificationCondition;
use crate::sensor::SensorId;
use crate::state::{state_held, AlarmState, SensorState, SensorStates};

verus! {

/// What is to be done about one measurement: whether to notify, and the state to
/// keep for the sensor.
#[derive(Debug, Clone, Copy, PartialEq, Eq, Structural)]
pub struct Decision {
    pub notify: bool,
    pub next_state: AlarmState,
}

/// What one measurement comes to: its check against the thresholds, and the
/// decision taken from the check.
#[derive(Debug, PartialEq)]
pub struct Outcome {
    pub checked: CheckedMeasurement,
    pub decision: Decision,
}

/// The alarm state that a measurement puts its sensor in: `ThresholdExceeded`
/// where it has violations, `Normal` where it has none. The state before plays no
/// part.
pub open spec fn next_alarm_state(has_violations: bool) -> AlarmState {
    if has_violations {
        AlarmState::ThresholdExceeded
    } else {
        AlarmState::Normal
    }
}

/// Whether a measurement changes the alarm state of its sensor: no state is held
/// from before, or the one held differs from the one that the measurement puts
/// the sensor in.
pub open spec fn is_change(prior: Option<AlarmState>, has_violations: bool) -> bool {
    match prior {
        None => true,
        Some(state) => state != next_alarm_state(has_violations),
    }
}

/// Whether a measurement leads to a notification. `ThresholdExceeded` notifies on
/// violations. `Always` does the same: it notifies on every measurement that has
/// violations, whatever the state before, and on no other. `OnChange` notifies
/// where the measurement changes the alarm state.
pub open spec fn fires(
    mode: NotificationCondition,
    has_violations: bool,
    prior: Option<AlarmState>,
) -> bool {
    match mode {
        NotificationCondition::Always => has_violations,
        NotificationCondition::ThresholdExceeded => has_violations,
        NotificationCondition::OnChange => is_change(prior, has_violations),
    }
}

/// The state that is held for a sensor: none where no states are held at all, or
/// none for this sensor.
pub open spec fn held(sensor_states: Option<&SensorStates>, sensor_id: Seq<char>) -> Option<
    AlarmState,
> {
    match sensor_states {
        Some(states) => state_held(states@, sensor_id),
        None => None,
    }
}

/// The alarm state that a measurement puts its sensor in.
pub fn next_state(has_violations: bool) -> (r: AlarmState)
    ensures
        r == next_alarm_state(has_violations),
{
    if has_violations {
        AlarmState::ThresholdExceeded
    } else {
        AlarmState::Normal
    }
}

/// The state that is held for a sensor, if any.
pub fn prior_state(sensor_states: Option<&SensorStates>, sensor_id: &SensorId) -> (r: Option<
    AlarmState,
>)
    ensures
        r == held(sensor_states, sensor_id@),
{
    match sensor_states {
        Some(states) => states.get(sensor_id.as_str()),
        None => None,
    }
}

/// Whether a measurement changes the alarm state that is held for its sensor.
pub fn alarm_state_changed(
    sensor_states: Option<&SensorStates>,
    sensor_id: &SensorId,
    has_violation: bool,
) -> (r: bool)
    ensures
        r == is_change(held(sensor_states, sensor_id@), has_violation),
{
    match prior_state(sensor_states, sensor_id) {
        Some(AlarmState::Normal) => has_violation,
        Some(AlarmState::ThresholdExceeded) => !has_violation,
        None => true,
    }
}

/// Whether a measurement leads to a notification.
pub fn should_notify(
    mode: NotificationCondition,
    has_violations: bool,
    prior: Option<AlarmState>,
) -> (r: bool)
    ensures
        r == fires(mode, has_violations, prior),
{
    match mode {
        NotificationCondition::Always => has_violations,
        NotificationCondition::ThresholdExceeded => has_violations,
        NotificationCondition::OnChange => match prior {
            Some(AlarmState::Normal) => has_violations,
            Some(AlarmState::ThresholdExceeded) => !has_violations,
            None => true,
        },
    }
}

/// Decides about one measurement: whether to notify, and the state to keep.
pub fn decide(mode: NotificationCondition, has_violations: bool, prior: Option<AlarmState>) -> (r:
    Decision)
    ensures
        r.notify == fires(mode, has_violations, prior),
        r.next_state == next_alarm_state(has_violations),
{
    Decision {
        notify: should_notify(mode, has_violations, prior),
        next_state: next_state(has_violations),
    }
}

/// Whether a checked measurement is to be mailed, given the states held from the
/// run before.
pub fn is_due(checked: &CheckedMeasurement, sensor_states: Option<&SensorStates>) -> (r: bool)
    requires
        checked.measurement.sensor.notification_condition is Some,
    ensures
        r == fires(
            checked.measurement.sensor.notification_condition->0,
            checked.has_violations,
            held(sensor_states, checked.measurement.sensor.id@),
        ),
{
    let mode = checked.measurement.sensor.notification_condition.unwrap();
    let prior = prior_state(sensor_states, &checked.measurement.sensor.id);
    should_notify(mode, checked.has_violations, prior)
}

/// Holds a measurement against the thresholds of its sensor and decides, by the
/// sensor's notification condition and the state held for it from the run before,
/// whether to notify and which state to keep.
pub fn evaluate(measurement: Measurement, sensor_states: Option<&SensorStates>) -> (r: Outcome)
    requires
        measurement.sensor.is_resolved(),
    ensures
        is_check_of(r.checked, measurement),
        r.decision.notify == fires(
            measurement.sensor.notification_condition->0,
            r.checked.has_violations,
            held(sensor_states, measurement.sensor.id@),
        ),
        r.decision.next_state == next_alarm_state(r.checked.has_violations),
{
    let mode = measurement.sensor.notification_condition.unwrap();
    let prior = prior_state(sensor_states, &measurement.sensor.id);
    let checked = check_measurement(measurement);
    let decision = decide(mode, checked.has_violations, prior);
    Outcome { checked, decision }
}

/// The record to keep for the sensor of a checked measurement.
pub fn state_to_keep(checked: &CheckedMeasurement) -> (r: SensorState)
    ensures
        r.sensor_id@ == checked.measurement.sensor.id@,
        r.alarm_state == next_alarm_state(checked.has_violations),
{
    SensorState {
        sensor_id: checked.measurement.sensor.id.clone(),
        alarm_state: next_state(checked.has_violations),
    }
}

/// `OnChange` notifies exactly where no state is held from before or the state
/// held differs from the next one; where the two are the same it does not.
pub proof fn lemma_on_change_fires_on_change_only(has_violations: bool, prior: Option<AlarmState>)
    ensures
        fires(NotificationCondition::OnChange, has_violations, prior) <==> (prior is None
            || prior->0 != next_alarm_state(has_violations)),
        prior == Some(next_alarm_state(has_violations)) ==> !fires(
            NotificationCondition::OnChange,
            has_violations,
            prior,
        ),
{
}

/// `Always` and `ThresholdExceeded` notify exactly on violations, whatever state
/// is held from before.
pub proof fn lemma_level_modes_fire_on_violations(has_violations: bool, prior: Option<AlarmState>)
    ensures
        fires(NotificationCondition::Always, has_violations, prior) == has_violations,
        fires(NotificationCondition::ThresholdExceeded, has_violations, prior) == has_violations,
{
}

/// Once the state that a measurement leads to is held, the same measurement again
/// changes nothing: under `OnChange` it does not notify a second time.
pub proof fn lemma_no_second_notification(has_violations: bool)
    ensures
        !fires(
            NotificationCondition::OnChange,
            has_violations,
            Some(next_alarm_state(has_violations)),
        ),
{
}

} // verus!
