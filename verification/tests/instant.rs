use tweet_ingest::instant::{Timestamp, MAX_SECONDS, MIN_SECONDS};

#[test]
fn the_epoch_is_written_in_rfc_3339() {
    let t = Timestamp::from_unix(0, 0).unwrap();
    assert_eq!(t.to_rfc3339(), "1970-01-01T00:00:00+00:00");
}

#[test]
fn an_instant_keeps_its_seconds_and_nanoseconds() {
    let t = Timestamp::from_unix(1558623286, 500_000_000).unwrap();
    assert_eq!(t.timestamp(), 1558623286);
    assert_eq!(t.timestamp_subsec_nanos(), 500_000_000);
    assert_eq!(t.to_rfc3339(), "2019-05-23T14:54:46.500+00:00");
}

#[test]
fn instants_before_the_epoch_are_representable() {
    let t = Timestamp::from_unix(-1, 0).unwrap();
    assert_eq!(t.to_rfc3339(), "1969-12-31T23:59:59+00:00");
}

#[test]
fn instants_that_chrono_cannot_represent_are_refused() {
    assert_eq!(Timestamp::from_unix(i64::MAX, 0), None);
    assert_eq!(Timestamp::from_unix(i64::MIN, 0), None);
    assert_eq!(Timestamp::from_unix(0, 2_000_000_000), None);
    assert_eq!(Timestamp::from_unix(0, 1_000_000_000), None);
}

#[test]
fn a_leap_second_is_an_instant() {
    let t = Timestamp::from_unix(59, 1_000_000_000).unwrap();
    assert_eq!(t.timestamp_subsec_nanos(), 1_000_000_000);
}

#[test]
fn parse_follows_the_given_format() {
    let t = Timestamp::parse("2019-05-23 14:54:46 +0000", "%Y-%m-%d %H:%M:%S %z").unwrap();
    assert_eq!(t.timestamp(), 1558623286);
    let t = Timestamp::parse("2019-05-23 14:54:46 -0500", "%Y-%m-%d %H:%M:%S %z").unwrap();
    assert_eq!(t.timestamp(), 1558623286 + 5 * 3600);
    assert_eq!(Timestamp::parse("2019-05-23", "%Y-%m-%d %H:%M:%S %z"), None);
    assert_eq!(Timestamp::parse("2019-05-23 14:54:46 +0000", "%Q"), None);
}

#[test]
fn years_beyond_four_digits_are_written_with_a_sign() {
    let t = Timestamp::from_unix(253_402_300_800, 0).unwrap();
    assert_eq!(t.to_rfc3339(), "+10000-01-01T00:00:00+00:00");
    let t = Timestamp::from_unix(-62_167_219_201, 0).unwrap();
    assert_eq!(t.to_rfc3339(), "-0001-12-31T23:59:59+00:00");
}

#[test]
fn the_representable_seconds_end_where_chrono_ends() {
    assert_eq!(MIN_SECONDS, -8_334_601_228_800);
    assert_eq!(MAX_SECONDS, 8_210_266_876_799);
    assert!(Timestamp::from_unix(MAX_SECONDS, 0).is_some());
    assert!(Timestamp::from_unix(MAX_SECONDS, 999_999_999).is_some());
    assert_eq!(Timestamp::from_unix(MAX_SECONDS + 1, 0), None);
    assert!(Timestamp::from_unix(MIN_SECONDS, 0).is_some());
    assert_eq!(Timestamp::from_unix(MIN_SECONDS - 1, 0), None);
    assert_eq!(
        Timestamp::from_unix(MAX_SECONDS, 0).unwrap().to_rfc3339(),
        "+262142-12-31T23:59:59+00:00"
    );
    assert_eq!(
        Timestamp::from_unix(MIN_SECONDS, 0).unwrap().to_rfc3339(),
        "-262143-01-01T00:00:00+00:00"
    );
}

#[test]
fn a_leap_second_needs_the_last_second_of_a_minute() {
    assert!(Timestamp::from_unix(59, 1_999_999_999).is_some());
    assert_eq!(Timestamp::from_unix(58, 1_000_000_000), None);
    assert_eq!(Timestamp::from_unix(60, 1_000_000_000), None);
    assert!(Timestamp::from_unix(-1, 1_000_000_000).is_some());
    assert_eq!(Timestamp::from_unix(-2, 1_000_000_000), None);
    assert!(Timestamp::from_unix(-61, 1_500_000_000).is_some());
    assert!(Timestamp::from_unix(MAX_SECONDS, 1_000_000_000).is_some());
    assert_eq!(Timestamp::from_unix(MIN_SECONDS, 1_000_000_000), None);
}
