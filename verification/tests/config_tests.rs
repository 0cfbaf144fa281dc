use luftpost::config::{
    default_template, AuthMechanism, Config, Defaults, NotificationCondition, Smtp,
};
use luftpost::float::Float32;
use luftpost::sensor::{pick_first, Sensor};

fn num(x: f32) -> Float32 {
    Float32::from_bits(x.to_bits())
}

fn no_defaults() -> Defaults {
    Defaults {
        threshold_pm10: None,
        threshold_pm2: None,
        notification_condition: None,
        state_dir: None,
    }
}

fn smtp() -> Smtp {
    Smtp {
        sender: "test@example.com".to_string(),
        receiver: "test@example.com".to_string(),
        subject: "PM alarm from sensor {{ sensor.name }}".to_string(),
        server: "localhost".to_string(),
        port: Some(25),
        username: Some("test".to_string()),
        password: Some("example".to_string()),
        auth_mechanism: Some(AuthMechanism::CramMd5),
        text_template: default_template(),
        html_template: default_template(),
    }
}

fn max_config() -> Config {
    let min = Sensor::new("Min", "12345678", "http://feinstaub", "http://feinstaub/data.json");
    let max = Sensor {
        threshold_pm10: Some(num(20.0)),
        threshold_pm2: Some(num(20.0)),
        notification_condition: Some(NotificationCondition::ThresholdExceeded),
        ..Sensor::new("Max", "12345678", "http://feinstaub", "http://feinstaub/data.json")
    };
    Config {
        defaults: Defaults {
            threshold_pm10: Some(num(10.0)),
            threshold_pm2: Some(num(10.0)),
            notification_condition: Some(NotificationCondition::Always),
            state_dir: Some("/var/lib/states".to_string()),
        },
        smtp: Some(smtp()),
        sensors: vec![min, max],
    }
}

#[test]
fn a_sensor_without_any_threshold_gets_fifty() {
    let config = Config {
        defaults: no_defaults(),
        smtp: None,
        sensors: vec![Sensor::new(
            "Feinstaub",
            "12345678",
            "http://feinstaub",
            "http://feinstaub/data.json",
        )],
    };

    let config = Config::set_defaults(config);

    assert_eq!(config.sensors.len(), 1);
    let sensor = &config.sensors[0];
    assert_eq!(sensor.threshold_pm10, Some(num(50.0)));
    assert_eq!(sensor.threshold_pm2, Some(num(50.0)));
    assert_eq!(sensor.notification_condition, Some(NotificationCondition::ThresholdExceeded));
    assert_eq!(config.defaults.threshold_pm10, Some(num(50.0)));
    assert_eq!(config.defaults.threshold_pm2, Some(num(50.0)));
    assert_eq!(
        config.defaults.notification_condition,
        Some(NotificationCondition::ThresholdExceeded)
    );
    assert_eq!(config.defaults.state_dir, None);
    assert_eq!(config.smtp, None);
}

#[test]
fn defaults_fill_what_a_sensor_leaves_unset() {
    let config = Config::set_defaults(max_config());

    assert_eq!(config.defaults.threshold_pm10.unwrap(), num(10.0));
    assert_eq!(config.defaults.threshold_pm2.unwrap(), num(10.0));
    assert_eq!(config.defaults.notification_condition.unwrap(), NotificationCondition::Always);
    assert_eq!(config.defaults.state_dir, Some("/var/lib/states".to_string()));
    assert_eq!(config.smtp, Some(smtp()));

    assert_eq!(config.sensors.len(), 2);
    let s1 = &config.sensors[0];
    assert_eq!(s1.threshold_pm10.unwrap(), num(10.0));
    assert_eq!(s1.threshold_pm2.unwrap(), num(10.0));
    assert_eq!(s1.notification_condition.unwrap(), NotificationCondition::Always);
    assert_eq!(s1.name, "Min");

    let s2 = &config.sensors[1];
    assert_eq!(s2.threshold_pm10.unwrap(), num(20.0));
    assert_eq!(s2.threshold_pm2.unwrap(), num(20.0));
    assert_eq!(s2.notification_condition.unwrap(), NotificationCondition::ThresholdExceeded);
    assert_eq!(s2.name, "Max");
    assert_eq!(s2.id, "12345678");
    assert_eq!(s2.ui_uri, "http://feinstaub");
    assert_eq!(s2.data_uri, "http://feinstaub/data.json");
}

#[test]
fn each_field_is_resolved_by_itself() {
    let sensor = Sensor {
        threshold_pm2: Some(num(7.5)),
        ..Sensor::new("s", "1", "u", "d")
    };
    let config = Config {
        defaults: Defaults {
            threshold_pm10: Some(num(30.0)),
            threshold_pm2: None,
            notification_condition: Some(NotificationCondition::OnChange),
            state_dir: None,
        },
        smtp: None,
        sensors: vec![sensor, Sensor::new("t", "2", "u", "d")],
    };
    let config = Config::set_defaults(config);
    assert_eq!(config.defaults.threshold_pm10, Some(num(30.0)));
    assert_eq!(config.defaults.threshold_pm2, Some(num(50.0)));
    assert_eq!(config.defaults.notification_condition, Some(NotificationCondition::OnChange));
    assert_eq!(config.sensors[0].threshold_pm10, Some(num(30.0)));
    assert_eq!(config.sensors[0].threshold_pm2, Some(num(7.5)));
    assert_eq!(config.sensors[0].notification_condition, Some(NotificationCondition::OnChange));
    assert_eq!(config.sensors[1].threshold_pm10, Some(num(30.0)));
    assert_eq!(config.sensors[1].threshold_pm2, Some(num(50.0)));
    assert_eq!(config.sensors[1].notification_condition, Some(NotificationCondition::OnChange));
}

#[test]
fn resolving_leaves_nothing_unset() {
    for config in [
        max_config(),
        Config { defaults: no_defaults(), smtp: None, sensors: vec![Sensor::new("a", "b", "c", "d")] },
    ] {
        let config = Config::set_defaults(config);
        assert!(config.defaults.threshold_pm10.is_some());
        assert!(config.defaults.threshold_pm2.is_some());
        assert!(config.defaults.notification_condition.is_some());
        for sensor in &config.sensors {
            assert!(sensor.threshold_pm10.is_some());
            assert!(sensor.threshold_pm2.is_some());
            assert!(sensor.notification_condition.is_some());
        }
    }
}

#[test]
fn resolving_twice_changes_nothing() {
    let once = Config::set_defaults(max_config());
    let twice = Config::set_defaults(Config::set_defaults(max_config()));
    assert_eq!(once, twice);

    let bare = || Config {
        defaults: no_defaults(),
        smtp: None,
        sensors: vec![Sensor::new("a", "b", "c", "d"), Sensor::new("e", "f", "g", "h")],
    };
    assert_eq!(Config::set_defaults(bare()), Config::set_defaults(Config::set_defaults(bare())));
}

#[test]
fn the_sensors_keep_their_order() {
    let config = Config {
        defaults: no_defaults(),
        smtp: None,
        sensors: vec![
            Sensor::new("c", "3", "", ""),
            Sensor::new("a", "1", "", ""),
            Sensor::new("b", "2", "", ""),
        ],
    };
    let config = Config::set_defaults(config);
    let names: Vec<&str> = config.sensors.iter().map(|sensor| sensor.name.as_str()).collect();
    assert_eq!(names, vec!["c", "a", "b"]);
}

#[test]
fn a_configuration_without_sensors_resolves_its_defaults() {
    let config = Config::set_defaults(Config { defaults: no_defaults(), smtp: None, sensors: vec![] });
    assert!(config.sensors.is_empty());
    assert_eq!(config.defaults.threshold_pm10, Some(num(50.0)));
}

#[test]
fn a_new_sensor_has_no_policy() {
    let sensor = Sensor::new("A Sensor", "123456789", "http://localhost/ui", "http://localhost/data");
    assert_eq!(sensor.name, "A Sensor");
    assert_eq!(sensor.id, "123456789");
    assert_eq!(sensor.ui_uri, "http://localhost/ui");
    assert_eq!(sensor.data_uri, "http://localhost/data");
    assert_eq!(sensor.threshold_pm10, None);
    assert_eq!(sensor.threshold_pm2, None);
    assert_eq!(sensor.notification_condition, None);
}

#[test]
fn sensor_resolve_takes_the_defaults_where_unset() {
    let defaults = Defaults {
        threshold_pm10: Some(num(1.0)),
        threshold_pm2: Some(num(2.0)),
        notification_condition: Some(NotificationCondition::Always),
        state_dir: None,
    };
    let sensor = Sensor { threshold_pm10: Some(num(3.0)), ..Sensor::new("a", "b", "c", "d") };
    let sensor = sensor.resolve(&defaults);
    assert_eq!(sensor.threshold_pm10, Some(num(3.0)));
    assert_eq!(sensor.threshold_pm2, Some(num(2.0)));
    assert_eq!(sensor.notification_condition, Some(NotificationCondition::Always));
    let unresolved = Sensor::new("a", "b", "c", "d").resolve(&no_defaults());
    assert_eq!(unresolved, Sensor::new("a", "b", "c", "d"));
}

#[test]
fn defaults_resolve_takes_the_fallbacks() {
    let defaults = no_defaults().resolve();
    assert_eq!(defaults.threshold_pm10, Some(Float32::fifty()));
    assert_eq!(defaults.threshold_pm2, Some(Float32::fifty()));
    assert_eq!(defaults.notification_condition, Some(NotificationCondition::ThresholdExceeded));
    assert_eq!(defaults.state_dir, None);
}

#[test]
fn pick_first_takes_the_first_that_is_present() {
    assert_eq!(pick_first(Some(1), Some(2)), Some(1));
    assert_eq!(pick_first(None, Some(2)), Some(2));
    assert_eq!(pick_first(Some(1), None), Some(1));
    assert_eq!(pick_first::<u8>(None, None), None);
}

#[test]
fn the_default_template_is_the_name_of_the_sensor() {
    assert_eq!(default_template(), "{{ sensor.name }}");
}

#[test]
fn mechanisms_are_named_whatever_the_case() {
    assert_eq!(AuthMechanism::from_name("CramMd5"), Some(AuthMechanism::CramMd5));
    assert_eq!(AuthMechanism::from_name("crammd5"), Some(AuthMechanism::CramMd5));
    assert_eq!(AuthMechanism::from_name("CRAMMD5"), Some(AuthMechanism::CramMd5));
    assert_eq!(AuthMechanism::from_name("Plain"), Some(AuthMechanism::Plain));
    assert_eq!(AuthMechanism::from_name("plain"), Some(AuthMechanism::Plain));
    assert_eq!(AuthMechanism::from_name("PLAIN"), Some(AuthMechanism::Plain));
    assert_eq!(AuthMechanism::from_name("login"), None);
    assert_eq!(AuthMechanism::from_name(""), None);
    assert_eq!(AuthMechanism::from_name("cram-md5"), None);
}

#[test]
fn classify_takes_the_uppercase_name_as_given() {
    assert_eq!(AuthMechanism::classify("PLAIN"), Some(AuthMechanism::Plain));
    assert_eq!(AuthMechanism::classify("CRAMMD5"), Some(AuthMechanism::CramMd5));
    assert_eq!(AuthMechanism::classify("plain"), None);
}

#[test]
fn credentials_need_name_password_and_mechanism() {
    let full = smtp();
    assert_eq!(
        full.credentials(),
        Some((&"test".to_string(), &"example".to_string(), AuthMechanism::CramMd5))
    );
    assert_eq!(Smtp { username: None, ..smtp() }.credentials(), None);
    assert_eq!(Smtp { password: None, ..smtp() }.credentials(), None);
    assert_eq!(Smtp { auth_mechanism: None, ..smtp() }.credentials(), None);
}
