use chrono::{DateTime, FixedOffset, TimeZone, Utc};
use timeline_plugin_git::time::{
    normalize, Delay, TimeError, UtcInstant, UtcOffset, WallClock, MAX_DELAY_SECONDS,
    MAX_TIMESTAMP_SECONDS, MIN_TIMESTAMP_SECONDS,
};

#[test]
fn normalize_gives_the_seconds_in_milliseconds() {
    assert_eq!(normalize(1_700_000_000, -120), Ok(UtcInstant { millis: 1_700_000_000_000 }));
    assert_eq!(normalize(0, 0), Ok(UtcInstant { millis: 0 }));
    assert_eq!(normalize(-1, 300), Ok(UtcInstant { millis: -1_000 }));
}

#[test]
fn normalize_does_not_depend_on_the_offset() {
    let at_utc = normalize(1_234_567_890, 0);
    assert_eq!(normalize(1_234_567_890, 1439), at_utc);
    assert_eq!(normalize(1_234_567_890, -1439), at_utc);
    assert_eq!(at_utc, Ok(UtcInstant { millis: 1_234_567_890_000 }));
}

#[test]
fn normalize_refuses_an_offset_of_a_day_or_more() {
    assert_eq!(normalize(0, 1440), Err(TimeError::OffsetOutOfRange));
    assert_eq!(normalize(0, -1440), Err(TimeError::OffsetOutOfRange));
    assert_eq!(normalize(0, i32::MAX), Err(TimeError::OffsetOutOfRange));
    assert_eq!(normalize(0, i32::MIN), Err(TimeError::OffsetOutOfRange));
    assert!(normalize(0, 1439).is_ok());
    assert!(normalize(0, -1439).is_ok());
}

#[test]
fn normalize_refuses_seconds_outside_the_calendar() {
    assert_eq!(
        normalize(MAX_TIMESTAMP_SECONDS, 0),
        Ok(UtcInstant { millis: 8_210_266_876_799_000 })
    );
    assert_eq!(normalize(MAX_TIMESTAMP_SECONDS + 1, 0), Err(TimeError::TimestampOutOfRange));
    assert_eq!(
        normalize(MIN_TIMESTAMP_SECONDS, 0),
        Ok(UtcInstant { millis: -8_334_601_228_800_000 })
    );
    assert_eq!(normalize(MIN_TIMESTAMP_SECONDS - 1, 0), Err(TimeError::TimestampOutOfRange));
    assert_eq!(normalize(i64::MAX, 0), Err(TimeError::TimestampOutOfRange));
    assert_eq!(normalize(i64::MIN, 0), Err(TimeError::TimestampOutOfRange));
}

#[test]
fn normalize_judges_the_offset_first() {
    assert_eq!(normalize(i64::MAX, 1440), Err(TimeError::OffsetOutOfRange));
}

#[test]
fn normalize_agrees_with_chrono() {
    let samples: Vec<(i64, i32)> = vec![
        (0, 0),
        (1_700_000_000, 60),
        (1_700_000_000, -330),
        (-86_400, 720),
        (951_782_400, -1439),
        (MAX_TIMESTAMP_SECONDS, 1439),
        (MIN_TIMESTAMP_SECONDS, -1439),
    ];
    for (seconds, offset_minutes) in samples {
        let offset = FixedOffset::west_opt(offset_minutes * 60).unwrap();
        let local = offset.timestamp_millis_opt(seconds * 1000).unwrap();
        let utc = DateTime::<Utc>::from(local);
        assert_eq!(
            normalize(seconds, offset_minutes),
            Ok(UtcInstant { millis: utc.timestamp_millis() })
        );
    }
}

#[test]
fn west_minutes_are_stored_as_seconds_east() {
    assert_eq!(UtcOffset::west_minutes(60).map(|o| o.local_minus_utc()), Some(-3600));
    assert_eq!(UtcOffset::west_minutes(-330).map(|o| o.local_minus_utc()), Some(19_800));
    assert_eq!(UtcOffset::west_minutes(0).map(|o| o.local_minus_utc()), Some(0));
    assert_eq!(UtcOffset::west_minutes(1439).map(|o| o.local_minus_utc()), Some(-86_340));
    assert_eq!(UtcOffset::west_minutes(1440), None);
    assert_eq!(UtcOffset::west_minutes(-1440), None);
}

#[test]
fn inverse_offset_points_the_other_way() {
    let offset = UtcOffset::west_minutes(90).unwrap();
    assert_eq!(offset.inverse().local_minus_utc(), 5_400);
    assert_eq!(offset.inverse().inverse(), offset);
}

#[test]
fn instant_at_checks_the_calendar() {
    let offset = UtcOffset::west_minutes(-60).unwrap();
    assert_eq!(offset.instant_at(10), Some(UtcInstant { millis: 10_000 }));
    assert_eq!(offset.instant_at(MAX_TIMESTAMP_SECONDS + 1), None);
    assert_eq!(offset.instant_at(MIN_TIMESTAMP_SECONDS - 1), None);
}

#[test]
fn wall_clock_round_trip_reproduces_local_time() {
    let samples: Vec<(i64, i32)> = vec![
        (0, 0),
        (1_700_000_000, 60),
        (1_700_000_000, -330),
        (-86_400, 720),
        (MAX_TIMESTAMP_SECONDS, -1439),
        (MIN_TIMESTAMP_SECONDS, 1439),
    ];
    for (seconds, offset_minutes) in samples {
        let offset = UtcOffset::west_minutes(offset_minutes).unwrap();
        let instant = normalize(seconds, offset_minutes).unwrap();
        let local = offset.wall_clock(instant).unwrap();
        assert_eq!(local.millis, (seconds - (offset_minutes as i64) * 60) * 1000);
        assert_eq!(offset.instant_of(local), Some(instant));
        assert_eq!(offset.wall_clock(offset.instant_of(local).unwrap()), Some(local));
    }
}

#[test]
fn wall_clock_agrees_with_chrono() {
    let offset_minutes: i32 = 300;
    let seconds: i64 = 1_700_000_000;
    let fixed = FixedOffset::west_opt(offset_minutes * 60).unwrap();
    let local = fixed.timestamp_millis_opt(seconds * 1000).unwrap();
    let shown = local.naive_local().and_utc().timestamp_millis();
    let offset = UtcOffset::west_minutes(offset_minutes).unwrap();
    let instant = normalize(seconds, offset_minutes).unwrap();
    assert_eq!(offset.wall_clock(instant), Some(WallClock { millis: shown }));
    assert_eq!(shown, 1_699_982_000_000);
}

#[test]
fn wall_clock_outside_64_bits_is_refused() {
    let east = UtcOffset::west_minutes(-1).unwrap();
    let west = UtcOffset::west_minutes(1).unwrap();
    assert_eq!(east.wall_clock(UtcInstant { millis: i64::MAX }), None);
    assert_eq!(west.wall_clock(UtcInstant { millis: i64::MIN }), None);
    assert_eq!(
        west.wall_clock(UtcInstant { millis: i64::MAX }),
        Some(WallClock { millis: i64::MAX - 60_000 })
    );
    assert_eq!(west.instant_of(WallClock { millis: i64::MAX }), None);
    assert_eq!(east.instant_of(WallClock { millis: i64::MIN }), None);
}

#[test]
fn delay_of_minutes_counts_seconds() {
    assert_eq!(Delay::of_minutes(15), Some(Delay { seconds: 900 }));
    assert_eq!(Delay::of_minutes(0), Some(Delay { seconds: 0 }));
    assert_eq!(Delay::of_minutes(-2), Some(Delay { seconds: -120 }));
}

#[test]
fn delay_of_minutes_refuses_what_is_too_long() {
    let most: i64 = MAX_DELAY_SECONDS / 60;
    assert_eq!(Delay::of_minutes(most), Some(Delay { seconds: most * 60 }));
    assert_eq!(Delay::of_minutes(most + 1), None);
    assert_eq!(Delay::of_minutes(-most), Some(Delay { seconds: -most * 60 }));
    assert_eq!(Delay::of_minutes(-most - 1), None);
    assert_eq!(Delay::of_minutes(i64::MAX), None);
    assert_eq!(Delay::of_minutes(i64::MIN), None);
}
