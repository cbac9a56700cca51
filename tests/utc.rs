use hifitime::instant::{Duration, Era, Instant};
use hifitime::utc::{quorem, Errors, Utc, is_leap_year};

fn utc(year: i32, month: u8, day: u8, hour: u8, minute: u8, second: u8) -> Utc {
    Utc::new(year, month, day, hour, minute, second, 0).expect("valid date")
}

#[test]
fn quorem_nominal_test() {
    assert_eq!(quorem(24, 6), (4, 0));
    assert_eq!(quorem(25, 6), (4, 1));
    assert_eq!(quorem(6, 6), (1, 0));
    assert_eq!(quorem(5, 6), (0, 5));
    assert_eq!(quorem(3540, 3600), (0, 3540));
    assert_eq!(quorem(3540, 60), (59, 0));
}

#[test]
fn epoch_is_instant_zero() {
    assert_eq!(utc(1900, 1, 1, 0, 0, 0).as_instant(), Instant::new(0, 0, Era::Present));
}

#[test]
fn instant_before_leap_second() {
    assert_eq!(
        utc(1971, 12, 31, 23, 59, 59).as_instant(),
        Instant::new(2272060799, 0, Era::Present)
    );
}

#[test]
fn leap_second_shares_instant_of_previous_second() {
    let before = utc(1971, 12, 31, 23, 59, 59);
    let leap = utc(1971, 12, 31, 23, 59, 60);
    let next = utc(1972, 1, 1, 0, 0, 0);
    assert_eq!(leap.as_instant(), before.as_instant());
    assert_eq!(next.as_instant().secs(), leap.as_instant().secs() + 1);
}

#[test]
fn calendar_order_around_leap_second() {
    let before = utc(1971, 12, 31, 23, 59, 59);
    let leap = utc(1971, 12, 31, 23, 59, 60);
    let next = utc(1972, 1, 1, 0, 0, 0);
    assert!(before < leap);
    assert!(leap < next);
    assert!(before.as_instant() == leap.as_instant());
    assert!(leap.as_instant() < next.as_instant());
    assert!(before.as_instant() < next.as_instant());
}

#[test]
fn rejects_february_29_in_common_year() {
    assert_eq!(Utc::new(2021, 2, 29, 0, 0, 0, 0), Err(Errors::Carry));
}

#[test]
fn rejects_month_13() {
    assert_eq!(Utc::new(2021, 13, 1, 0, 0, 0, 0), Err(Errors::Carry));
}

#[test]
fn accepts_february_29_in_leap_year() {
    let u = Utc::new(2020, 2, 29, 0, 0, 0, 0).expect("leap day");
    assert_eq!(u.day, 29);
}

#[test]
fn rejects_february_30_in_leap_year() {
    assert_eq!(Utc::new(2020, 2, 30, 0, 0, 0, 0), Err(Errors::Carry));
}

#[test]
fn rejects_out_of_range_fields() {
    assert_eq!(Utc::new(2021, 0, 1, 0, 0, 0, 0), Err(Errors::Carry));
    assert_eq!(Utc::new(2021, 1, 0, 0, 0, 0, 0), Err(Errors::Carry));
    assert_eq!(Utc::new(2021, 4, 31, 0, 0, 0, 0), Err(Errors::Carry));
    assert_eq!(Utc::new(2021, 1, 1, 25, 0, 0, 0), Err(Errors::Carry));
    assert_eq!(Utc::new(2021, 1, 1, 0, 60, 0, 0), Err(Errors::Carry));
    assert_eq!(Utc::new(2021, 1, 1, 0, 0, 60, 0), Err(Errors::Carry));
    assert_eq!(Utc::new(2021, 1, 1, 0, 0, 0, 1_000_000_000), Err(Errors::Carry));
    assert!(Utc::new(2021, 1, 1, 24, 0, 0, 999_999_999).is_ok());
}

#[test]
fn leap_second_gating() {
    assert!(Utc::new(1971, 12, 31, 23, 59, 60, 0).is_ok());
    assert_eq!(Utc::new(1972, 12, 31, 23, 59, 60, 0).map(|u| u.second), Ok(60));
    assert_eq!(Utc::new(1973, 12, 31, 23, 59, 60, 0).map(|u| u.second), Ok(60));
    assert_eq!(Utc::new(1980, 12, 31, 23, 59, 60, 0), Err(Errors::Carry));
    assert!(Utc::new(1972, 6, 30, 23, 59, 60, 0).is_ok());
    assert_eq!(Utc::new(1973, 6, 30, 23, 59, 60, 0), Err(Errors::Carry));
    assert_eq!(Utc::new(1972, 6, 30, 23, 58, 60, 0), Err(Errors::Carry));
}

#[test]
fn renders_iso_text() {
    let santa = utc(2017, 12, 25, 1, 2, 14);
    assert_eq!(santa.to_string(), "2017-12-25T01:02:14+00:00");
}

#[test]
fn renders_padded_and_negative_years() {
    assert_eq!(utc(33, 1, 2, 3, 4, 5).to_string(), "0033-01-02T03:04:05+00:00");
    assert_eq!(utc(-5, 11, 30, 23, 0, 9).to_string(), "-005-11-30T23:00:09+00:00");
    assert_eq!(utc(12345, 1, 1, 0, 0, 0).to_string(), "12345-01-01T00:00:00+00:00");
}

#[test]
fn one_hour_later_is_3600_seconds() {
    let santa = utc(2017, 12, 25, 1, 2, 14).as_instant();
    let later = utc(2017, 12, 25, 2, 2, 14).as_instant();
    assert_eq!(santa.secs() + 3600, later.secs());
}

#[test]
fn past_era_counts_magnitude() {
    let i = utc(1899, 1, 1, 0, 0, 1).as_instant();
    assert_eq!(i, Instant::new(31536001, 0, Era::Past));
}

#[test]
fn round_trip_on_first_days_of_early_years() {
    for u in [
        Utc::new(1900, 1, 1, 0, 0, 0, 0).unwrap(),
        Utc::new(1903, 1, 1, 12, 34, 56, 789).unwrap(),
        Utc::new(1850, 1, 1, 23, 59, 59, 5).unwrap(),
        Utc::new(1904, 1, 1, 24, 0, 0, 0).unwrap(),
    ] {
        assert_eq!(Utc::from_instant(u.as_instant()), u);
    }
}

#[test]
fn from_instant_of_epoch() {
    let u = Utc::from_instant(Instant::new(0, 7, Era::Present));
    assert_eq!(u, Utc::new(1900, 1, 1, 0, 0, 0, 7).unwrap());
}

#[test]
fn from_instant_decomposes_by_average_month() {
    // One day in: the decomposition keeps day 1 and counts 24 hours.
    let u = Utc::from_instant(Instant::new(86400, 0, Era::Present));
    assert_eq!(u, Utc::new(1900, 1, 1, 24, 0, 0, 0).unwrap());
}

#[test]
fn leap_year_rule() {
    assert!(is_leap_year(2020));
    assert!(!is_leap_year(2021));
    assert!(!is_leap_year(1900));
    assert!(is_leap_year(2000));
    assert!(is_leap_year(-400));
    assert!(!is_leap_year(-100));
}

#[test]
fn offset_is_zero() {
    let o = Utc::utc_offset();
    assert_eq!((o.hours, o.minutes, o.era), (0, 0, Era::Present));
}

#[test]
fn add_one_hour_to_instant() {
    let santa = utc(2017, 12, 25, 1, 2, 14).as_instant();
    let later = utc(2017, 12, 25, 2, 2, 14).as_instant();
    assert_eq!(santa.add_duration(Duration::new(3600, 0)), later);
}

#[test]
fn add_duration_carries_nanoseconds() {
    let i = Instant::new(10, 900_000_000, Era::Present);
    assert_eq!(i.add_duration(Duration::new(1, 200_000_000)), Instant::new(12, 100_000_000, Era::Present));
}

#[test]
fn add_duration_crosses_epoch() {
    let i = Instant::new(1, 500, Era::Past);
    assert_eq!(i.add_duration(Duration::new(2, 0)), Instant::new(0, 999_999_500, Era::Present));
    assert_eq!(i.add_duration(Duration::new(1, 500)), Instant::new(0, 0, Era::Present));
    assert_eq!(i.add_duration(Duration::new(0, 600)), Instant::new(0, 999_999_900, Era::Past));
}

#[test]
fn instant_elapsed_time_order() {
    assert!(Instant::new(5, 0, Era::Past) < Instant::new(3, 0, Era::Past));
    assert!(Instant::new(0, 1, Era::Past) < Instant::new(0, 0, Era::Present));
    assert!(Instant::new(3, 7, Era::Present) < Instant::new(3, 8, Era::Present));
    assert!(Instant::new(4, 0, Era::Present) > Instant::new(3, 999_999_999, Era::Present));
    assert!(utc(1850, 6, 1, 0, 0, 0).as_instant() < utc(1900, 1, 1, 0, 0, 0).as_instant());
}

#[test]
fn calendar_order_compares_fields_in_turn() {
    assert!(utc(2000, 12, 31, 23, 59, 59) < utc(2001, 1, 1, 0, 0, 0));
    assert!(utc(2001, 2, 1, 0, 0, 0) > utc(2001, 1, 31, 23, 59, 59));
    let a = Utc::new(2001, 1, 1, 0, 0, 0, 1).unwrap();
    assert!(utc(2001, 1, 1, 0, 0, 0) < a);
    assert!(a <= a);
}

#[test]
fn june_leap_second_instants() {
    let leap = utc(2015, 6, 30, 23, 59, 60);
    let before = utc(2015, 6, 30, 23, 59, 59);
    let next = utc(2015, 7, 1, 0, 0, 0);
    assert_eq!(leap.as_instant(), before.as_instant());
    assert_eq!(next.as_instant().secs(), leap.as_instant().secs() + 1);
    assert!(before < leap && leap < next);
}
