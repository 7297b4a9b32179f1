use logtar::{
    format_line, log_file_name, ActiveFile, CallerId, LogAction, LogConfig, LogLevel, Logger,
    RollingConfig, RollingSizeOptions, RollingTimeOptions, Timestamp,
};

fn at(seconds: i64, nanos: u32) -> Timestamp {
    Timestamp::new(seconds, nanos).unwrap()
}

/// The name of the file that is created under `Logtar_` in the first minute
/// of 1970, at the given second and nanosecond.
fn name_at(second: u32, nanos: u32) -> String {
    format!("Logtar_1970-01-01T00-00-{:02}-{:09}TUTC.log", second, nanos)
}

fn small_files() -> LogConfig {
    LogConfig::new().with_level(LogLevel::Debug).with_rolling_config(
        RollingConfig::new()
            .with_size_threshold(RollingSizeOptions::OneKB)
            .with_time_threshold(RollingTimeOptions::Yearly),
    )
}

#[test]
fn caller_names() {
    assert_eq!(CallerId::unknown().as_str(), "unknown");
    assert_eq!(CallerId::new("server::handle".to_string()).as_str(), "server::handle");
    assert_eq!(CallerId::new(String::new()).as_str(), "");
}

#[test]
fn line_is_level_colon_caller_space_message_newline() {
    let caller = CallerId::new("main".to_string());
    assert_eq!(format_line(LogLevel::Info, &caller, "hello"), "INFO:main hello\n");
    assert_eq!(format_line(LogLevel::Critical, &CallerId::unknown(), "y"), "CRITICAL:unknown y\n");
    assert_eq!(format_line(LogLevel::Debug, &caller, ""), "DEBUG:main \n");
    assert_eq!(format_line(LogLevel::Warn, &caller, "a b\nc"), "WARN:main a b\nc\n");
    assert_eq!(format_line(LogLevel::Error, &caller, "\u{e9}"), "ERROR:main \u{e9}\n");
}

#[test]
fn new_logger_starts_with_an_empty_file_named_by_the_instant() {
    let logger = Logger::new_at(LogConfig::new(), &at(1704164645, 678901234));
    assert_eq!(logger.file_name(), "Logtar_2024-01-02T03-04-05-678901234TUTC.log");
    assert_eq!(logger.active_file().size_written_bytes(), 0);
    assert_eq!(logger.active_file().created_at(), 1704164645);
    assert_eq!(logger.config(), &LogConfig::new());
}

#[test]
fn new_logger_without_config_uses_the_default_one() {
    let logger = Logger::new(None).unwrap();
    assert_eq!(logger.config(), &LogConfig::new());
    assert_eq!(logger.active_file().size_written_bytes(), 0);
    let name = logger.file_name();
    assert!(name.starts_with("Logtar_"));
    assert!(name.ends_with("UTC.log"));
    let stamp = &name["Logtar_".len()..name.len() - ".log".len()];
    assert!(!stamp.contains('.') && !stamp.contains(':') && !stamp.contains(' '));
    assert_eq!(stamp.len(), "2024-01-02T03-04-05-678901234TUTC".len());
    assert!(logger.active_file().created_at() > 1_600_000_000);
}

#[test]
fn new_logger_with_config_keeps_it() {
    let config = LogConfig::new().with_file_prefix("svc_".to_string()).with_level(LogLevel::Error);
    let logger = Logger::new(Some(config.clone())).unwrap();
    assert_eq!(logger.config(), &config);
    assert!(logger.file_name().starts_with("svc_"));
}

#[test]
fn default_logger_drops_debug_and_writes_critical() {
    let mut logger = Logger::new(None).unwrap();
    let caller = CallerId::unknown();
    let mut lines: Vec<String> = Vec::new();
    for action in [logger.debug("x", &caller), logger.critical("y", &caller)] {
        match action.unwrap() {
            LogAction::Suppressed => {},
            LogAction::Append { line } => lines.push(line),
            LogAction::Rotate { line, .. } => lines.push(line),
        }
    }
    assert_eq!(lines, vec!["CRITICAL:unknown y\n".to_string()]);
    assert_eq!(logger.active_file().size_written_bytes(), "CRITICAL:unknown y\n".len() as u64);
}

#[test]
fn debug_is_suppressed_at_level_info_and_leaves_the_logger_alone() {
    let mut logger = Logger::new_at(LogConfig::new(), &at(100, 0));
    let name = logger.file_name().to_string();
    assert_eq!(logger.debug("x", &CallerId::unknown()), Some(LogAction::Suppressed));
    assert_eq!(
        logger.log_at("x", LogLevel::Debug, &CallerId::unknown(), &at(1_000_000, 1)),
        LogAction::Suppressed
    );
    assert_eq!(logger.file_name(), name);
    assert_eq!(logger.active_file().size_written_bytes(), 0);
    assert_eq!(logger.active_file().created_at(), 100);
}

#[test]
fn each_level_method_logs_at_its_level() {
    let caller = CallerId::new("t".to_string());
    let config = LogConfig::new().with_level(LogLevel::Debug);
    let mut logger = Logger::new(Some(config)).unwrap();
    let expect = |action: Option<LogAction>, text: &str| match action {
        Some(LogAction::Append { line }) => assert_eq!(line, text),
        other => panic!("unexpected {:?}", other),
    };
    expect(logger.debug("m", &caller), "DEBUG:t m\n");
    expect(logger.info("m", &caller), "INFO:t m\n");
    expect(logger.warn("m", &caller), "WARN:t m\n");
    expect(logger.error("m", &caller), "ERROR:t m\n");
    expect(logger.critical("m", &caller), "CRITICAL:t m\n");
    expect(logger.log("m", LogLevel::Warn, &caller), "WARN:t m\n");
    assert_eq!(logger.active_file().size_written_bytes(), 10 + 9 + 9 + 10 + 13 + 9);
}

#[test]
fn level_methods_respect_the_configured_level() {
    let caller = CallerId::unknown();
    let mut logger = Logger::new(Some(LogConfig::new().with_level(LogLevel::Error))).unwrap();
    assert_eq!(logger.debug("m", &caller), Some(LogAction::Suppressed));
    assert_eq!(logger.info("m", &caller), Some(LogAction::Suppressed));
    assert_eq!(logger.warn("m", &caller), Some(LogAction::Suppressed));
    assert!(matches!(logger.error("m", &caller), Some(LogAction::Append { .. })));
    assert!(matches!(logger.critical("m", &caller), Some(LogAction::Append { .. })));
}

#[test]
fn written_line_is_counted_in_bytes() {
    let mut logger = Logger::new_at(small_files(), &at(0, 0));
    let caller = CallerId::new("c".to_string());
    let action = logger.log_at("\u{e9}\u{4e2d}", LogLevel::Info, &caller, &at(1, 0));
    // "INFO:c " is 7 bytes, the two characters take 2 and 3, the line feed 1.
    assert_eq!(action, LogAction::Append { line: "INFO:c \u{e9}\u{4e2d}\n".to_string() });
    assert_eq!(logger.active_file().size_written_bytes(), 13);
}

#[test]
fn line_that_fits_exactly_does_not_rotate() {
    let mut logger = Logger::new_at(small_files(), &at(0, 0));
    let caller = CallerId::new("c".to_string());
    // "INFO:c " and the line feed take 8 bytes.
    let message = "m".repeat(1024 - 8);
    let action = logger.log_at(&message, LogLevel::Info, &caller, &at(1, 0));
    assert!(matches!(action, LogAction::Append { .. }));
    assert_eq!(logger.active_file().size_written_bytes(), 1024);
    assert_eq!(logger.file_name(), name_at(0, 0));
    // The file is full: the next line, however short, goes to a new file.
    let action = logger.log_at("", LogLevel::Info, &caller, &at(2, 5));
    assert_eq!(
        action,
        LogAction::Rotate { file_name: name_at(2, 5), line: "INFO:c \n".to_string() }
    );
    assert_eq!(logger.active_file().size_written_bytes(), 8);
    assert_eq!(logger.active_file().created_at(), 2);
}

#[test]
fn line_that_would_pass_the_size_threshold_rotates_first() {
    let mut logger = Logger::new_at(small_files(), &at(0, 0));
    let caller = CallerId::new("c".to_string());
    let first = "a".repeat(600 - 8);
    let second = "b".repeat(425 - 8);
    assert!(matches!(logger.log_at(&first, LogLevel::Info, &caller, &at(1, 0)), LogAction::Append { .. }));
    assert_eq!(logger.active_file().size_written_bytes(), 600);
    let action = logger.log_at(&second, LogLevel::Info, &caller, &at(2, 5));
    match action {
        LogAction::Rotate { file_name, line } => {
            assert_eq!(file_name, name_at(2, 5));
            assert_eq!(line.len(), 425);
        },
        other => panic!("unexpected {:?}", other),
    }
    assert_eq!(logger.file_name(), name_at(2, 5));
    assert_eq!(logger.active_file().size_written_bytes(), 425);
}

#[test]
fn size_stays_within_the_threshold_over_many_writes() {
    let limit = RollingSizeOptions::OneKB.bytes();
    let mut logger = Logger::new_at(small_files(), &at(1700000000, 0));
    let caller = CallerId::new("c".to_string());
    let mut rotations = 0;
    let mut written: u64 = 0;
    let mut names = vec![logger.file_name().to_string()];
    for n in 1..=500i64 {
        let message = "x".repeat((n as usize * 37) % 300);
        let now = at(1700000000 + n, 123456789);
        let action = logger.log_at(&message, LogLevel::Warn, &caller, &now);
        let size = logger.active_file().size_written_bytes();
        assert!(size <= limit, "write {} left {} bytes", n, size);
        match action {
            LogAction::Rotate { file_name, line } => {
                rotations += 1;
                assert!(written + line.len() as u64 > limit);
                assert_eq!(file_name, log_file_name("Logtar_", &now.text()));
                names.push(file_name);
                assert_eq!(size, line.len() as u64);
                written = size;
            },
            LogAction::Append { line } => {
                written += line.len() as u64;
                assert_eq!(size, written);
            },
            LogAction::Suppressed => panic!("write {} was suppressed", n),
        }
    }
    assert!(rotations > 50);
    assert_eq!(names.len(), rotations + 1);
    assert!(names.windows(2).all(|pair| pair[0] < pair[1]));
}

#[test]
fn line_longer_than_the_threshold_is_alone_in_its_file() {
    let mut logger = Logger::new_at(small_files(), &at(0, 0));
    let caller = CallerId::new("c".to_string());
    let long = "z".repeat(3000);
    let action = logger.log_at(&long, LogLevel::Info, &caller, &at(1, 0));
    assert!(matches!(action, LogAction::Rotate { .. }));
    assert_eq!(logger.active_file().size_written_bytes(), 3008);
    let action = logger.log_at("", LogLevel::Info, &caller, &at(2, 5));
    assert!(matches!(action, LogAction::Rotate { .. }));
    assert_eq!(logger.active_file().size_written_bytes(), 8);
}

#[test]
fn file_rotates_when_it_reaches_the_age_threshold() {
    let config = LogConfig::new()
        .with_rolling_config(RollingConfig::new().with_time_threshold(RollingTimeOptions::Minutely));
    let mut logger = Logger::new_at(config, &at(1000, 0));
    let caller = CallerId::unknown();
    let action = logger.log_at("a", LogLevel::Info, &caller, &at(1059, 999999999));
    assert!(matches!(action, LogAction::Append { .. }));
    assert_eq!(logger.active_file().created_at(), 1000);
    let action = logger.log_at("b", LogLevel::Info, &caller, &at(1060, 0));
    assert_eq!(
        action,
        LogAction::Rotate {
            file_name: "Logtar_1970-01-01T00-17-40-000000000TUTC.log".to_string(),
            line: "INFO:unknown b\n".to_string()
        }
    );
    assert_eq!(logger.active_file().created_at(), 1060);
    assert_eq!(logger.active_file().size_written_bytes(), 15);
}

#[test]
fn clock_that_goes_back_does_not_rotate() {
    let mut logger = Logger::new_at(LogConfig::new(), &at(5000000, 0));
    let name = logger.file_name().to_string();
    let action = logger.log_at("a", LogLevel::Info, &CallerId::unknown(), &at(0, 0));
    assert!(matches!(action, LogAction::Append { .. }));
    assert_eq!(logger.file_name(), name);
    assert_eq!(logger.active_file().created_at(), 5000000);
}

#[test]
fn first_and_last_instant_do_not_overflow() {
    let mut logger = Logger::new_at(LogConfig::new(), &at(0, 0));
    let last = at(253402300799, 999999999);
    let action = logger.log_at("a", LogLevel::Info, &CallerId::unknown(), &last);
    assert_eq!(
        action,
        LogAction::Rotate {
            file_name: "Logtar_9999-12-31T23-59-59-999999999TUTC.log".to_string(),
            line: "INFO:unknown a\n".to_string()
        }
    );
    assert_eq!(logger.active_file().created_at(), 253402300799);
    let action = logger.log_at("a", LogLevel::Info, &CallerId::unknown(), &at(0, 0));
    assert!(matches!(action, LogAction::Append { .. }));
}

#[test]
fn two_rotations_in_a_row_give_increasing_names() {
    let config = LogConfig::new()
        .with_rolling_config(RollingConfig::new().with_time_threshold(RollingTimeOptions::Minutely));
    let mut logger = Logger::new_at(config, &at(1704067200, 1));
    let caller = CallerId::unknown();
    let mut names = vec![logger.file_name().to_string()];
    for now in [at(1704067260, 1), at(1704067320, 1)] {
        match logger.log_at("m", LogLevel::Info, &caller, &now) {
            LogAction::Rotate { file_name, .. } => names.push(file_name),
            other => panic!("unexpected {:?}", other),
        }
    }
    assert_eq!(
        names,
        vec![
            "Logtar_2024-01-01T00-00-00-000000001TUTC.log".to_string(),
            "Logtar_2024-01-01T00-01-00-000000001TUTC.log".to_string(),
            "Logtar_2024-01-01T00-02-00-000000001TUTC.log".to_string(),
        ]
    );
    assert!(names[0] < names[1] && names[1] < names[2]);
    assert!(names.iter().all(|name| name.starts_with("Logtar_")));
}

#[test]
fn rotations_at_a_whole_second_and_half_a_second_later_sort_in_order() {
    let config = LogConfig::new().with_rolling_config(
        RollingConfig::new().with_size_threshold(RollingSizeOptions::OneKB),
    );
    let mut logger = Logger::new_at(config, &at(1704067199, 0));
    let caller = CallerId::unknown();
    let long = "z".repeat(2000);
    let mut names = Vec::new();
    for now in [at(1704067200, 0), at(1704067200, 500000000)] {
        match logger.log_at(&long, LogLevel::Info, &caller, &now) {
            LogAction::Rotate { file_name, .. } => names.push(file_name),
            other => panic!("unexpected {:?}", other),
        }
    }
    assert_eq!(
        names,
        vec![
            "Logtar_2024-01-01T00-00-00-000000000TUTC.log".to_string(),
            "Logtar_2024-01-01T00-00-00-500000000TUTC.log".to_string(),
        ]
    );
    assert!(names[0] < names[1]);
}

#[test]
fn loggers_started_one_after_the_other_name_their_files_in_order() {
    let first = Logger::new_at(LogConfig::new(), &at(1704067200, 0));
    let second = Logger::new_at(LogConfig::new(), &at(1704067200, 500000000));
    let third = Logger::new_at(LogConfig::new(), &at(1704070800, 0));
    assert!(first.file_name() < second.file_name());
    assert!(second.file_name() < third.file_name());
    let now = Logger::new(None).unwrap();
    let later = Logger::new(None).unwrap();
    assert!(now.file_name() <= later.file_name());
    assert!(third.file_name() < now.file_name());
}

#[test]
fn active_file_accounts_for_writes() {
    let policy = RollingConfig::new().with_size_threshold(RollingSizeOptions::OneKB);
    let mut file = ActiveFile::open("p_", &at(10, 0));
    assert_eq!(file.name(), "p_1970-01-01T00-00-10-000000000TUTC.log");
    assert!(!file.needs_rotation(1024, &at(10, 0), &policy));
    assert!(file.needs_rotation(1025, &at(10, 0), &policy));
    assert!(!file.needs_rotation(0, &at(3609, 999999999), &policy));
    assert!(file.needs_rotation(0, &at(3610, 0), &policy));
    assert!(!file.write("p_", 1000, &at(11, 0), &policy));
    assert_eq!(file.size_written_bytes(), 1000);
    assert!(!file.needs_rotation(24, &at(12, 0), &policy));
    assert!(file.needs_rotation(25, &at(12, 0), &policy));
    assert!(file.write("q_", 25, &at(12, 7), &policy));
    assert_eq!(file.name(), "q_1970-01-01T00-00-12-000000007TUTC.log");
    assert_eq!(file.size_written_bytes(), 25);
    assert_eq!(file.created_at(), 12);
    assert!(file.needs_rotation(usize::MAX, &at(12, 7), &policy));
}
