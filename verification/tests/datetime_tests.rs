use sitegen::datetime::{dt_epoch_seconds, Date, Datetime, Time, UtcOffset};

fn dt(date: Option<Date>, time: Option<Time>, offset: Option<UtcOffset>) -> Datetime {
    Datetime { date, time, offset }
}

#[test]
fn epoch_of_the_epoch_is_zero() {
    let d = dt(Some(Date { year: 1970, month: 1, day: 1 }), None, None);
    assert_eq!(dt_epoch_seconds(&d), 0);
}

#[test]
fn epoch_of_a_utc_datetime() {
    let d = dt(
        Some(Date { year: 2024, month: 5, day: 1 }),
        Some(Time { hour: 10, minute: 30, second: 0, nanosecond: 0 }),
        Some(UtcOffset::Zulu),
    );
    assert_eq!(dt_epoch_seconds(&d), 1714559400);
}

#[test]
fn offset_minutes_shift_the_instant() {
    let base = dt(
        Some(Date { year: 2024, month: 5, day: 1 }),
        Some(Time { hour: 10, minute: 30, second: 0, nanosecond: 0 }),
        Some(UtcOffset::Minutes(60)),
    );
    assert_eq!(dt_epoch_seconds(&base), 1714559400 - 3600);
    let west = dt(base.date, base.time, Some(UtcOffset::Minutes(-90)));
    assert_eq!(dt_epoch_seconds(&west), 1714559400 + 90 * 60);
}

#[test]
fn missing_or_invalid_parts_degrade() {
    // no date: the epoch itself
    assert_eq!(dt_epoch_seconds(&dt(None, None, None)), 0);
    // impossible date: the epoch itself
    let bad = dt(Some(Date { year: 2023, month: 2, day: 29 }), None, None);
    assert_eq!(dt_epoch_seconds(&bad), 0);
    // invalid time: midnight
    let d = dt(
        Some(Date { year: 1970, month: 1, day: 2 }),
        Some(Time { hour: 25, minute: 0, second: 0, nanosecond: 0 }),
        None,
    );
    assert_eq!(dt_epoch_seconds(&d), 86400);
    // out-of-range offset: UTC
    let d = dt(
        Some(Date { year: 1970, month: 1, day: 2 }),
        None,
        Some(UtcOffset::Minutes(5000)),
    );
    assert_eq!(dt_epoch_seconds(&d), 86400);
}

#[test]
fn dates_before_the_epoch_are_negative() {
    let d = dt(Some(Date { year: 1969, month: 12, day: 31 }), None, None);
    assert_eq!(dt_epoch_seconds(&d), -86400);
}

#[test]
fn leap_day_counts() {
    let d = dt(Some(Date { year: 2024, month: 3, day: 1 }), None, None);
    let before = dt(Some(Date { year: 2024, month: 2, day: 29 }), None, None);
    assert_eq!(dt_epoch_seconds(&d) - dt_epoch_seconds(&before), 86400);
}
