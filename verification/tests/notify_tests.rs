use luftpost::check::check_measurement;
use luftpost::config::NotificationCondition;
use luftpost::float::Float32;
use luftpost::measurement::{MeasuredValue, Measurement};
use luftpost::notify::{
    alarm_state_changed, decide, evaluate, is_due, next_state, prior_state, should_notify,
    state_to_keep, Decision,
};
use luftpost::sensor::Sensor;
use luftpost::state::{AlarmState, SensorState, SensorStates};

fn num(x: f32) -> Float32 {
    Float32::from_bits(x.to_bits())
}

fn checked(id: &str, mode: NotificationCondition, pm10: f32) -> luftpost::CheckedMeasurement {
    let sensor = Sensor {
        threshold_pm10: Some(num(10.0)),
        threshold_pm2: Some(num(2.0)),
        notification_condition: Some(mode),
        ..Sensor::new("A Sensor", id, "http://localhost", "http://localhost")
    };
    check_measurement(Measurement {
        sensor,
        software_version: "NRZ-2017-089".to_string(),
        data_values: vec![MeasuredValue::SDS_P1(num(pm10))],
    })
}

#[test]
fn the_next_state_follows_the_violations_alone() {
    assert_eq!(next_state(true), AlarmState::ThresholdExceeded);
    assert_eq!(next_state(false), AlarmState::Normal);
}

#[test]
fn on_change_from_normal_to_exceeded_notifies() {
    let decision = decide(NotificationCondition::OnChange, true, Some(AlarmState::Normal));
    assert_eq!(decision, Decision { notify: true, next_state: AlarmState::ThresholdExceeded });
}

#[test]
fn on_change_with_the_same_state_does_not_notify() {
    let decision = decide(NotificationCondition::OnChange, true, Some(AlarmState::ThresholdExceeded));
    assert_eq!(decision, Decision { notify: false, next_state: AlarmState::ThresholdExceeded });
    let decision = decide(NotificationCondition::OnChange, false, Some(AlarmState::Normal));
    assert_eq!(decision, Decision { notify: false, next_state: AlarmState::Normal });
}

#[test]
fn on_change_back_to_normal_notifies() {
    let decision = decide(NotificationCondition::OnChange, false, Some(AlarmState::ThresholdExceeded));
    assert_eq!(decision, Decision { notify: true, next_state: AlarmState::Normal });
}

#[test]
fn on_change_without_a_state_from_before_notifies() {
    assert_eq!(
        decide(NotificationCondition::OnChange, true, None),
        Decision { notify: true, next_state: AlarmState::ThresholdExceeded }
    );
    assert_eq!(
        decide(NotificationCondition::OnChange, false, None),
        Decision { notify: true, next_state: AlarmState::Normal }
    );
}

#[test]
fn the_level_modes_notify_on_violations() {
    for mode in [NotificationCondition::Always, NotificationCondition::ThresholdExceeded] {
        for prior in [None, Some(AlarmState::Normal), Some(AlarmState::ThresholdExceeded)] {
            assert!(should_notify(mode, true, prior));
            assert!(!should_notify(mode, false, prior));
            assert_eq!(decide(mode, true, prior).next_state, AlarmState::ThresholdExceeded);
            assert_eq!(decide(mode, false, prior).next_state, AlarmState::Normal);
        }
    }
}

#[test]
fn should_notify_in_every_case() {
    let (normal, exceeded) = (AlarmState::Normal, AlarmState::ThresholdExceeded);
    let (always, on_change) = (NotificationCondition::Always, NotificationCondition::OnChange);
    let table = [
        (always, false, None, false),
        (always, true, None, true),
        (always, false, Some(exceeded), false),
        (always, true, Some(exceeded), true),
        (NotificationCondition::ThresholdExceeded, false, Some(normal), false),
        (NotificationCondition::ThresholdExceeded, true, Some(normal), true),
        (NotificationCondition::ThresholdExceeded, true, Some(exceeded), true),
        (NotificationCondition::ThresholdExceeded, false, Some(exceeded), false),
        (on_change, false, None, true),
        (on_change, true, None, true),
        (on_change, false, Some(normal), false),
        (on_change, true, Some(normal), true),
        (on_change, false, Some(exceeded), true),
        (on_change, true, Some(exceeded), false),
    ];
    for (mode, has_violations, prior, expected) in table {
        assert_eq!(should_notify(mode, has_violations, prior), expected);
        assert_eq!(decide(mode, has_violations, prior).notify, expected);
    }
}

#[test]
fn a_state_changes_against_what_is_held() {
    let mut states = SensorStates::new();
    states.insert("calm".to_string(), AlarmState::Normal);
    states.insert("loud".to_string(), AlarmState::ThresholdExceeded);
    let calm = "calm".to_string();
    let loud = "loud".to_string();
    let new = "new".to_string();

    assert!(alarm_state_changed(Some(&states), &calm, true));
    assert!(!alarm_state_changed(Some(&states), &calm, false));
    assert!(!alarm_state_changed(Some(&states), &loud, true));
    assert!(alarm_state_changed(Some(&states), &loud, false));
    assert!(alarm_state_changed(Some(&states), &new, true));
    assert!(alarm_state_changed(Some(&states), &new, false));
    assert!(alarm_state_changed(None, &calm, true));
    assert!(alarm_state_changed(None, &calm, false));
}

#[test]
fn no_states_at_all_means_no_state_from_before() {
    let mut states = SensorStates::new();
    states.insert("a".to_string(), AlarmState::ThresholdExceeded);
    assert_eq!(prior_state(Some(&states), &"a".to_string()), Some(AlarmState::ThresholdExceeded));
    assert_eq!(prior_state(Some(&states), &"b".to_string()), None);
    assert_eq!(prior_state(None, &"a".to_string()), None);
}

#[test]
fn a_measurement_is_due_as_its_sensor_asks() {
    let mut states = SensorStates::new();
    states.insert("1".to_string(), AlarmState::ThresholdExceeded);

    assert!(is_due(&checked("1", NotificationCondition::ThresholdExceeded, 17.87), Some(&states)));
    assert!(is_due(&checked("1", NotificationCondition::Always, 17.87), Some(&states)));
    assert!(!is_due(&checked("1", NotificationCondition::OnChange, 17.87), Some(&states)));
    assert!(is_due(&checked("2", NotificationCondition::OnChange, 17.87), Some(&states)));
    assert!(is_due(&checked("1", NotificationCondition::OnChange, 17.87), None));

    assert!(!is_due(&checked("1", NotificationCondition::ThresholdExceeded, 7.87), Some(&states)));
    assert!(!is_due(&checked("1", NotificationCondition::Always, 7.87), Some(&states)));
    assert!(is_due(&checked("1", NotificationCondition::OnChange, 7.87), Some(&states)));
}

#[test]
fn the_state_to_keep_is_that_of_the_check() {
    assert_eq!(
        state_to_keep(&checked("123456789", NotificationCondition::Always, 17.87)),
        SensorState { sensor_id: "123456789".to_string(), alarm_state: AlarmState::ThresholdExceeded }
    );
    assert_eq!(
        state_to_keep(&checked("123456789", NotificationCondition::Always, 10.0)),
        SensorState { sensor_id: "123456789".to_string(), alarm_state: AlarmState::Normal }
    );
}

#[test]
fn a_second_run_with_the_same_measurement_is_quiet_on_change() {
    let mut states = SensorStates::new();
    let first = checked("1", NotificationCondition::OnChange, 17.87);
    assert!(is_due(&first, Some(&states)));
    let kept = state_to_keep(&first);
    states.insert(kept.sensor_id, kept.alarm_state);
    let second = checked("1", NotificationCondition::OnChange, 17.87);
    assert!(!is_due(&second, Some(&states)));
    let third = checked("1", NotificationCondition::OnChange, 1.0);
    assert!(is_due(&third, Some(&states)));
}

fn measured(id: &str, mode: NotificationCondition, pm10: f32, pm2: f32) -> Measurement {
    let sensor = Sensor {
        threshold_pm10: Some(num(10.0)),
        threshold_pm2: Some(num(2.0)),
        notification_condition: Some(mode),
        ..Sensor::new("A Sensor", id, "http://localhost", "http://localhost")
    };
    Measurement {
        sensor,
        software_version: "NRZ-2017-089".to_string(),
        data_values: vec![
            MeasuredValue::SDS_P1(num(pm10)),
            MeasuredValue::HUMIDITY(num(49.1)),
            MeasuredValue::SDS_P2(num(pm2)),
        ],
    }
}

#[test]
fn evaluate_checks_and_decides() {
    let mut states = SensorStates::new();
    states.insert("1".to_string(), AlarmState::Normal);

    let outcome = evaluate(measured("1", NotificationCondition::OnChange, 17.87, 3.17), Some(&states));
    assert_eq!(outcome.checked, check_measurement(measured("1", NotificationCondition::OnChange, 17.87, 3.17)));
    assert!(outcome.checked.has_violations);
    assert_eq!(
        outcome.checked.violations,
        vec![MeasuredValue::SDS_P1(num(17.87)), MeasuredValue::SDS_P2(num(3.17))]
    );
    assert_eq!(
        outcome.decision,
        Decision { notify: true, next_state: AlarmState::ThresholdExceeded }
    );

    states.insert("1".to_string(), outcome.decision.next_state);
    let outcome = evaluate(measured("1", NotificationCondition::OnChange, 17.87, 3.17), Some(&states));
    assert_eq!(
        outcome.decision,
        Decision { notify: false, next_state: AlarmState::ThresholdExceeded }
    );

    let outcome = evaluate(measured("1", NotificationCondition::OnChange, 10.0, 2.0), Some(&states));
    assert!(!outcome.checked.has_violations);
    assert_eq!(outcome.decision, Decision { notify: true, next_state: AlarmState::Normal });

    let outcome = evaluate(measured("1", NotificationCondition::Always, 10.0, 2.0), Some(&states));
    assert_eq!(outcome.decision, Decision { notify: false, next_state: AlarmState::Normal });

    let outcome = evaluate(measured("1", NotificationCondition::ThresholdExceeded, 1.0, 2.5), None);
    assert_eq!(outcome.checked.violations, vec![MeasuredValue::SDS_P2(num(2.5))]);
    assert_eq!(
        outcome.decision,
        Decision { notify: true, next_state: AlarmState::ThresholdExceeded }
    );
}
