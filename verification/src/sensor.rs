use vstd::prelude::*;
use crate::config::{Defaults, NotificationCondition};
use crate::float::Float32;

verus! {

/// The identity of a sensor, the key of its alarm state.
pub type SensorId = String;

/// One sensor and its policy. The thresholds and the notification condition are
/// unset until the configuration has been resolved.
#[derive(Debug, PartialEq)]
pub struct Sensor {
    pub name: String,
    pub id: SensorId,
    pub ui_uri: String,
    pub data_uri: String,
    pub threshold_pm10: Option<Float32>,
    pub threshold_pm2: Option<Float32>,
    pub notification_condition: Option<NotificationCondition>,
}

/// The first of two optional values that is present.
pub open spec fn first_present<T>(first: Option<T>, second: Option<T>) -> Option<T> {
    if first is Some {
        first
    } else {
        second
    }
}

/// The first of two optional values that is present.
pub fn pick_first<T>(first: Option<T>, second: Option<T>) -> (r: Option<T>)
    ensures
        r == first_present(first, second),
{
    match first {
        Some(value) => Some(value),
        None => second,
    }
}

impl Sensor {
    /// A sensor with no policy of its own.
    pub fn new(name: &str, id: &str, ui_uri: &str, data_uri: &str) -> (r: Sensor)
        ensures
            r.name@ == name@,
            r.id@ == id@,
            r.ui_uri@ == ui_uri@,
            r.data_uri@ == data_uri@,
            r.threshold_pm10 is None,
            r.threshold_pm2 is None,
            r.notification_condition is None,
    {
        Sensor {
            name: name.to_owned(),
            id: id.to_owned(),
            ui_uri: ui_uri.to_owned(),
            data_uri: data_uri.to_owned(),
            threshold_pm10: None,
            threshold_pm2: None,
            notification_condition: None,
        }
    }

    /// Both thresholds and the notification condition are set.
    pub open spec fn is_resolved(self) -> bool {
        &&& self.threshold_pm10 is Some
        &&& self.threshold_pm2 is Some
        &&& self.notification_condition is Some
    }

    /// The sensor with each unset field of its policy taken from the defaults.
    pub open spec fn resolved_against(self, defaults: Defaults) -> Sensor {
        Sensor {
            threshold_pm10: first_present(self.threshold_pm10, defaults.threshold_pm10),
            threshold_pm2: first_present(self.threshold_pm2, defaults.threshold_pm2),
            notification_condition: first_present(
                self.notification_condition,
                defaults.notification_condition,
            ),
            ..self
        }
    }

    /// Fills each unset field of the policy from the defaults; what the sensor
    /// sets itself stays.
    pub fn resolve(self, defaults: &Defaults) -> (r: Sensor)
        ensures
            r == self.resolved_against(*defaults),
    {
        Sensor {
            threshold_pm10: pick_first(self.threshold_pm10, defaults.threshold_pm10),
            threshold_pm2: pick_first(self.threshold_pm2, defaults.threshold_pm2),
            notification_condition: pick_first(
                self.notification_condition,
                defaults.notification_condition,
            ),
            ..self
        }
    }
}

} // verus!
