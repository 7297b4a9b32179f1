use logtar::{should_emit, ConfigError, LogLevel};

const LEVELS: [LogLevel; 5] =
    [LogLevel::Debug, LogLevel::Info, LogLevel::Warn, LogLevel::Error, LogLevel::Critical];

#[test]
fn severities_run_from_zero_to_four() {
    assert_eq!(LogLevel::Debug.severity(), 0);
    assert_eq!(LogLevel::Info.severity(), 1);
    assert_eq!(LogLevel::Warn.severity(), 2);
    assert_eq!(LogLevel::Error.severity(), 3);
    assert_eq!(LogLevel::Critical.severity(), 4);
}

#[test]
fn should_emit_compares_severities_for_every_pair() {
    for message in LEVELS {
        for configured in LEVELS {
            assert_eq!(
                should_emit(message, configured),
                message.severity() >= configured.severity(),
                "{:?} against {:?}",
                message,
                configured
            );
        }
    }
}

#[test]
fn should_emit_on_chosen_pairs() {
    assert!(!should_emit(LogLevel::Debug, LogLevel::Info));
    assert!(should_emit(LogLevel::Info, LogLevel::Info));
    assert!(should_emit(LogLevel::Critical, LogLevel::Info));
    assert!(!should_emit(LogLevel::Error, LogLevel::Critical));
    assert!(should_emit(LogLevel::Debug, LogLevel::Debug));
}

#[test]
fn derived_order_agrees_with_severity() {
    for a in LEVELS {
        for b in LEVELS {
            assert_eq!(a < b, a.severity() < b.severity());
            assert_eq!(a == b, a.severity() == b.severity());
        }
    }
    assert!(LogLevel::Debug < LogLevel::Info);
    assert!(LogLevel::Error < LogLevel::Critical);
}

#[test]
fn level_from_u64_accepts_zero_to_four() {
    assert_eq!(LogLevel::from_u64(0), Ok(LogLevel::Debug));
    assert_eq!(LogLevel::from_u64(1), Ok(LogLevel::Info));
    assert_eq!(LogLevel::from_u64(2), Ok(LogLevel::Warn));
    assert_eq!(LogLevel::from_u64(3), Ok(LogLevel::Error));
    assert_eq!(LogLevel::from_u64(4), Ok(LogLevel::Critical));
}

#[test]
fn level_from_u64_rejects_the_rest() {
    assert_eq!(LogLevel::from_u64(5), Err(ConfigError::InvalidLevel));
    assert_eq!(LogLevel::from_u64(100), Err(ConfigError::InvalidLevel));
    assert_eq!(LogLevel::from_u64(u64::MAX), Err(ConfigError::InvalidLevel));
}

#[test]
fn level_round_trips_through_its_severity() {
    for level in LEVELS {
        assert_eq!(LogLevel::from_u64(level.severity()), Ok(level));
    }
}

#[test]
fn level_names_are_upper_case() {
    assert_eq!(LogLevel::Debug.as_str(), "DEBUG");
    assert_eq!(LogLevel::Info.as_str(), "INFO");
    assert_eq!(LogLevel::Warn.as_str(), "WARN");
    assert_eq!(LogLevel::Error.as_str(), "ERROR");
    assert_eq!(LogLevel::Critical.as_str(), "CRITICAL");
    for level in LEVELS {
        assert_eq!(level.to_string(), level.as_str());
    }
}

#[test]
fn config_error_messages_name_the_failed_validation() {
    assert_eq!(
        ConfigError::LoadFailed.message(),
        "the configuration document could not be read"
    );
    assert_eq!(
        ConfigError::InvalidLevel.message(),
        "the log level must be an integer from 0 to 4"
    );
    assert_eq!(
        ConfigError::InvalidThreshold.message(),
        "the rotation threshold is not one of the permitted values"
    );
}
