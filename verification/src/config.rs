use vstd::prelude::*;
use crate::float::Float32;
use crate::sensor::{first_present, pick_first, Sensor};
use crate::text::{same_text, uppercase, uppercase_of};

verus! {

/// When a sensor's measurement leads to a notification.
#[derive(Debug, Clone, Copy, PartialEq, Eq, Structural)]
pub enum NotificationCondition {
    /// On every measurement that exceeds a threshold.
    Always,
    /// On every measurement that exceeds a threshold.
    ThresholdExceeded,
    /// On the first measurement of a sensor, and whenever its alarm state differs
    /// from the one before.
    OnChange,
}

/// What holds for every sensor that does not say otherwise.
#[derive(Debug, PartialEq)]
pub struct Defaults {
    pub threshold_pm10: Option<Float32>,
    pub threshold_pm2: Option<Float32>,
    pub notification_condition: Option<NotificationCondition>,
    pub state_dir: Option<String>,
}

/// How the mail server is told who is sending.
#[derive(Debug, Clone, Copy, PartialEq, Eq, Structural)]
pub enum AuthMechanism {
    CramMd5,
    Plain,
}

/// Where and how notifications are sent.
#[derive(Debug, PartialEq)]
pub struct Smtp {
    pub sender: String,
    pub receiver: String,
    pub subject: String,
    pub server: String,
    pub port: Option<u16>,
    pub username: Option<String>,
    pub password: Option<String>,
    pub auth_mechanism: Option<AuthMechanism>,
    pub text_template: String,
    pub html_template: String,
}

/// The whole configuration.
#[derive(Debug, PartialEq)]
pub struct Config {
    pub defaults: Defaults,
    pub smtp: Option<Smtp>,
    pub sensors: Vec<Sensor>,
}

/// A configuration with its sensors as a sequence.
pub struct ConfigView {
    pub defaults: Defaults,
    pub smtp: Option<Smtp>,
    pub sensors: Seq<Sensor>,
}

impl View for Config {
    type V = ConfigView;

    open spec fn view(&self) -> ConfigView {
        ConfigView { defaults: self.defaults, smtp: self.smtp, sensors: self.sensors@ }
    }
}

/// The authentication mechanism that a name denotes, given the name in
/// uppercase.
pub open spec fn mechanism_of(upper: Seq<char>) -> Option<AuthMechanism> {
    if upper == "CRAMMD5"@ {
        Some(AuthMechanism::CramMd5)
    } else if upper == "PLAIN"@ {
        Some(AuthMechanism::Plain)
    } else {
        None
    }
}

impl AuthMechanism {
    /// The authentication mechanism that a name denotes, given the name in
    /// uppercase.
    pub fn classify(upper: &str) -> (r: Option<AuthMechanism>)
        ensures
            r == mechanism_of(upper@),
    {
        if same_text(upper, "CRAMMD5") {
            Some(AuthMechanism::CramMd5)
        } else if same_text(upper, "PLAIN") {
            Some(AuthMechanism::Plain)
        } else {
            None
        }
    }

    /// The authentication mechanism that a name denotes, whatever its case:
    /// `CramMd5` or `Plain`. Any other name denotes none.
    pub fn from_name(name: &str) -> (r: Option<AuthMechanism>)
        ensures
            r == mechanism_of(uppercase_of(name@)),
    {
        let upper = uppercase(name);
        AuthMechanism::classify(upper.as_str())
    }
}

impl Smtp {
    /// Whether the sender is to be authenticated: a user name, a password and a
    /// mechanism are all set.
    pub open spec fn has_credentials(self) -> bool {
        self.username is Some && self.password is Some && self.auth_mechanism is Some
    }

    /// What the sender is authenticated with, where it is to be: the user name,
    /// the password and the mechanism.
    pub fn credentials(&self) -> (r: Option<(&String, &String, AuthMechanism)>)
        ensures
            r is Some <==> self.has_credentials(),
            r matches Some((username, password, mechanism)) ==> {
                &&& *username == self.username->0
                &&& *password == self.password->0
                &&& mechanism == self.auth_mechanism->0
            },
    {
        match (&self.username, &self.password, self.auth_mechanism) {
            (Some(username), Some(password), Some(mechanism)) => Some((username, password, mechanism)),
            _ => None,
        }
    }
}

/// The template of a message where none is configured: the sensor's name.
pub fn default_template() -> (r: String)
    ensures
        r@ == "{{ sensor.name }}"@,
{
    "{{ sensor.name }}".to_owned()
}

impl Defaults {
    /// Both thresholds and the notification condition are set.
    pub open spec fn is_resolved(self) -> bool {
        &&& self.threshold_pm10 is Some
        &&& self.threshold_pm2 is Some
        &&& self.notification_condition is Some
    }

    /// The defaults with each unset field taken from the fallbacks: fifty for
    /// either threshold, `ThresholdExceeded` for the notification condition.
    pub open spec fn resolved(self) -> Defaults {
        Defaults {
            threshold_pm10: first_present(self.threshold_pm10, Some(Float32::spec_fifty())),
            threshold_pm2: first_present(self.threshold_pm2, Some(Float32::spec_fifty())),
            notification_condition: first_present(
                self.notification_condition,
                Some(NotificationCondition::ThresholdExceeded),
            ),
            ..self
        }
    }

    /// Fills each unset field from the fallbacks.
    pub fn resolve(self) -> (r: Defaults)
        ensures
            r == self.resolved(),
    {
        Defaults {
            threshold_pm10: pick_first(self.threshold_pm10, Some(Float32::fifty())),
            threshold_pm2: pick_first(self.threshold_pm2, Some(Float32::fifty())),
            notification_condition: pick_first(
                self.notification_condition,
                Some(NotificationCondition::ThresholdExceeded),
            ),
            ..self
        }
    }
}

impl ConfigView {
    /// The defaults and every sensor are resolved.
    pub open spec fn is_resolved(self) -> bool {
        &&& self.defaults.is_resolved()
        &&& forall|i: int| 0 <= i < self.sensors.len() ==> (#[trigger] self.sensors[i]).is_resolved()
    }

    /// The configuration with its defaults resolved against the fallbacks and each
    /// sensor resolved against those defaults.
    pub open spec fn resolved(self) -> ConfigView {
        let defaults = self.defaults.resolved();
        ConfigView {
            defaults,
            smtp: self.smtp,
            sensors: Seq::new(self.sensors.len(), |i: int| self.sensors[i].resolved_against(defaults)),
        }
    }
}

impl Config {
    /// Resolves the configuration: each field of the defaults that is unset takes
    /// its fallback, and each field of a sensor's policy that is unset takes the
    /// resolved default. Nothing else changes, and the sensors keep their order.
    pub fn set_defaults(config: Config) -> (r: Config)
        ensures
            r@ == config@.resolved(),
            r@.is_resolved(),
    {
        let Config { defaults, smtp, sensors } = config;
        let defaults = defaults.resolve();
        let ghost before = sensors@;
        let mut resolved: Vec<Sensor> = Vec::new();
        for sensor in it: sensors.into_iter()
            invariant
                it.seq() == before,
                defaults.is_resolved(),
                resolved@.len() == it.index(),
                forall|i: int| 0 <= i < resolved@.len() ==> resolved@[i] == (#[trigger] before[i]).resolved_against(defaults),
        {
            resolved.push(sensor.resolve(&defaults));
        }
        let r = Config { defaults, smtp, sensors: resolved };
        assert(r@.sensors =~= config@.resolved().sensors);
        r
    }
}

/// Resolving leaves nothing unset: the defaults and every sensor of a resolved
/// configuration have both thresholds and a notification condition.
pub proof fn lemma_resolution_leaves_nothing_unset(config: ConfigView)
    ensures
        config.resolved().is_resolved(),
{
}

/// Resolving a resolved configuration changes nothing.
pub proof fn lemma_resolution_is_idempotent(config: ConfigView)
    ensures
        config.resolved().resolved() == config.resolved(),
{
    let once = config.resolved();
    assert(once.defaults.resolved() == once.defaults);
    assert(once.resolved().sensors =~= once.sensors);
}

/// A configuration in which nothing is unset is its own resolution.
pub proof fn lemma_resolved_is_fixed(config: ConfigView)
    requires
        config.is_resolved(),
    ensures
        config.resolved() == config,
{
    assert(config.defaults.resolved() == config.defaults);
    assert(config.resolved().sensors =~= config.sensors);
}

/// A sensor's own setting wins over the default, and the default over the
/// fallback.
pub proof fn lemma_first_present_wins(config: ConfigView, i: int)
    requires
        0 <= i < config.sensors.len(),
    ensures
        ({
            let sensor = config.sensors[i];
            let defaults = config.defaults;
            let r = config.resolved().sensors[i];
            &&& r.threshold_pm10 == if sensor.threshold_pm10 is Some {
                sensor.threshold_pm10
            } else if defaults.threshold_pm10 is Some {
                defaults.threshold_pm10
            } else {
                Some(Float32::spec_fifty())
            }
            &&& r.threshold_pm2 == if sensor.threshold_pm2 is Some {
                sensor.threshold_pm2
            } else if defaults.threshold_pm2 is Some {
                defaults.threshold_pm2
            } else {
                Some(Float32::spec_fifty())
            }
            &&& r.notification_condition == if sensor.notification_condition is Some {
                sensor.notification_condition
            } else if defaults.notification_condition is Some {
                defaults.notification_condition
            } else {
                Some(NotificationCondition::ThresholdExceeded)
            }
            &&& r.name == sensor.name
            &&& r.id == sensor.id
            &&& r.ui_uri == sensor.ui_uri
            &&& r.data_uri == sensor.data_uri
        }),
{
}

} // verus!
