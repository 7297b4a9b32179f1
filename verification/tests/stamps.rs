use logtar::calendar::{date_of_number, stamp};
use logtar::{log_file_name, Timestamp};

fn at(seconds: i64, nanos: u32) -> Timestamp {
    Timestamp::new(seconds, nanos).unwrap()
}

fn written_by_chrono(seconds: i64, nanos: u32) -> String {
    chrono::DateTime::from_timestamp(seconds, nanos)
        .unwrap()
        .format("%Y-%m-%d %H:%M:%S%.9f UTC")
        .to_string()
}

const SAMPLES: [i64; 24] = [
    0,
    1,
    59,
    60,
    3599,
    3600,
    86399,
    86400,
    5097600,
    31535999,
    31536000,
    68255999,
    68256000,
    951782399,
    951782400,
    951868800,
    1709164800,
    1704164645,
    4102444799,
    4102444800,
    4107542400,
    32503680000,
    253402214400,
    253402300799,
];

#[test]
fn timestamp_holds_what_it_was_given() {
    let instant = at(1704164645, 678901234);
    assert_eq!(instant.seconds(), 1704164645);
    assert_eq!(instant.nanos(), 678901234);
    assert_eq!(at(0, 0).seconds(), 0);
    assert_eq!(at(253402300799, 999999999).nanos(), 999999999);
}

#[test]
fn timestamp_outside_the_years_that_can_be_written_is_refused() {
    assert_eq!(Timestamp::new(-1, 0), None);
    assert_eq!(Timestamp::new(i64::MIN, 0), None);
    assert_eq!(Timestamp::new(253402300800, 0), None);
    assert_eq!(Timestamp::new(i64::MAX, 0), None);
    assert_eq!(Timestamp::new(0, 1000000000), None);
    assert_eq!(Timestamp::new(0, u32::MAX), None);
    assert!(Timestamp::new(0, 0).is_some());
    assert!(Timestamp::new(253402300799, 999999999).is_some());
}

#[test]
fn timestamp_text_on_chosen_instants() {
    assert_eq!(at(0, 0).text(), "1970-01-01 00:00:00.000000000 UTC");
    assert_eq!(at(86399, 1).text(), "1970-01-01 23:59:59.000000001 UTC");
    assert_eq!(at(86400, 500000000).text(), "1970-01-02 00:00:00.500000000 UTC");
    assert_eq!(at(951782400, 0).text(), "2000-02-29 00:00:00.000000000 UTC");
    assert_eq!(at(1709164800, 0).text(), "2024-02-29 00:00:00.000000000 UTC");
    assert_eq!(at(1704164645, 678901234).text(), "2024-01-02 03:04:05.678901234 UTC");
    assert_eq!(at(253402300799, 999999999).text(), "9999-12-31 23:59:59.999999999 UTC");
}

#[test]
fn timestamp_text_has_one_width() {
    for seconds in SAMPLES {
        for nanos in [0, 1, 1000, 500000000, 999999999] {
            let text = at(seconds, nanos).text();
            assert_eq!(text.len(), "1970-01-01 00:00:00.000000000 UTC".len());
            assert_eq!(stamp(seconds, nanos), text);
        }
    }
}

#[test]
fn timestamp_text_is_what_chrono_writes_with_nine_digits() {
    for seconds in SAMPLES {
        for nanos in [0, 1, 120000000, 999999999] {
            assert_eq!(at(seconds, nanos).text(), written_by_chrono(seconds, nanos));
        }
    }
    // Every day of four centuries, and the last days that can be written.
    let mut day: i64 = 0;
    while day < 146097 + 800 {
        let seconds = day * 86400 + (day * 7919) % 86400;
        assert_eq!(at(seconds, 0).text(), written_by_chrono(seconds, 0));
        day += 1;
    }
    for day in 2932000..2932897i64 {
        assert_eq!(at(day * 86400, 0).text(), written_by_chrono(day * 86400, 0));
    }
}

#[test]
fn date_of_number_on_chosen_days() {
    assert_eq!(date_of_number(0), (1970, 1, 1));
    assert_eq!(date_of_number(30), (1970, 1, 31));
    assert_eq!(date_of_number(31), (1970, 2, 1));
    assert_eq!(date_of_number(58), (1970, 2, 28));
    assert_eq!(date_of_number(59), (1970, 3, 1));
    assert_eq!(date_of_number(364), (1970, 12, 31));
    assert_eq!(date_of_number(365), (1971, 1, 1));
    assert_eq!(date_of_number(789), (1972, 2, 29));
    assert_eq!(date_of_number(11016), (2000, 2, 29));
    assert_eq!(date_of_number(2932896), (9999, 12, 31));
}

#[test]
fn later_instant_gives_a_text_and_a_name_that_sort_later() {
    let mut instants: Vec<(i64, u32)> = Vec::new();
    for seconds in SAMPLES {
        for nanos in [0, 1, 999, 1000, 500000000, 999999999] {
            instants.push((seconds, nanos));
        }
    }
    instants.sort();
    for pair in instants.windows(2) {
        let first = at(pair[0].0, pair[0].1).text();
        let second = at(pair[1].0, pair[1].1).text();
        assert!(first < second, "{} before {}", first, second);
        let first = log_file_name("Logtar_", &first);
        let second = log_file_name("Logtar_", &second);
        assert_ne!(first, second);
        assert!(first < second, "{} before {}", first, second);
    }
}

#[test]
fn whole_second_sorts_before_the_half_second_after_it() {
    let first = log_file_name("Logtar_", &at(1704067200, 0).text());
    let second = log_file_name("Logtar_", &at(1704067200, 500000000).text());
    assert_eq!(first, "Logtar_2024-01-01T00-00-00-000000000TUTC.log");
    assert_eq!(second, "Logtar_2024-01-01T00-00-00-500000000TUTC.log");
    assert!(first < second);
}

#[test]
fn clock_reading_is_of_today() {
    let reading = Timestamp::now().unwrap();
    assert!(reading.seconds() > 1_600_000_000);
    assert!(reading.nanos() < 1_000_000_000);
    let text = reading.text();
    assert!(text.starts_with("20") && text.ends_with(" UTC"));
    let again = Timestamp::now().unwrap();
    assert!((again.seconds(), again.nanos()) >= (reading.seconds(), reading.nanos()));
}
