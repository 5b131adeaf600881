use chrono::{Datelike, Months, Utc};
use mortgage::date::{current_date, days_in_month, ymd_string, Date};
use mortgage::mortgage::Mortgage;

#[test]
fn test_last_payment_date_calc() {
    let mut loan: Mortgage = Mortgage::default();
    loan.params.months = 240;
    let today: Date = current_date().unwrap();
    loan.last_payment_date_calc(today);
    let expected = Utc::now()
        .checked_add_months(Months::new(loan.params.months as u32))
        .unwrap()
        .format("%Y-%m-%d")
        .to_string();
    assert_eq!(loan.aggregates.last_payment_date, expected)
}

#[test]
fn test_current_date_matches_clock() {
    let today: Date = current_date().unwrap();
    let now = Utc::now();
    assert_eq!(today.year as i32, now.year());
    assert_eq!(today.month as u32, now.month());
    assert_eq!(today.day as u32, now.day());
}

#[test]
fn test_add_months_clamps_day() {
    let d = Date { year: 2026, month: 1, day: 31 };
    assert_eq!(d.add_months(1), Date { year: 2026, month: 2, day: 28 });
    let leap = Date { year: 2024, month: 1, day: 31 };
    assert_eq!(leap.add_months(1), Date { year: 2024, month: 2, day: 29 });
    assert_eq!(leap.add_months(13), Date { year: 2025, month: 2, day: 28 });
    assert_eq!(d.add_months(12), Date { year: 2027, month: 1, day: 31 });
    assert_eq!(d.add_months(0), d);
}

#[test]
fn test_add_months_agrees_with_chrono() {
    // The verified month arithmetic matches chrono's on a leap-year boundary.
    let start = chrono::NaiveDate::from_ymd_opt(2023, 12, 31).unwrap();
    let d = Date { year: 2023, month: 12, day: 31 };
    for months in 0u8..=60 {
        let ours = d.add_months(months);
        let theirs = start.checked_add_months(Months::new(months as u32)).unwrap();
        assert_eq!(ours.year as i32, theirs.year());
        assert_eq!(ours.month as u32, theirs.month());
        assert_eq!(ours.day as u32, theirs.day());
    }
}

#[test]
fn test_days_in_month_rules() {
    assert_eq!(days_in_month(2024, 2), 29);
    assert_eq!(days_in_month(2025, 2), 28);
    assert_eq!(days_in_month(1900, 2), 28);
    assert_eq!(days_in_month(2000, 2), 29);
    assert_eq!(days_in_month(2026, 4), 30);
    assert_eq!(days_in_month(2026, 12), 31);
}

#[test]
fn test_ymd_string_zero_pads() {
    let d = Date::new(999, 1, 5).unwrap();
    assert_eq!(ymd_string(d), "0999-01-05");
    let d = Date::new(2026, 10, 9).unwrap();
    assert_eq!(ymd_string(d), "2026-10-09");
}

#[test]
fn test_date_new_rejects_bad_fields() {
    assert!(Date::new(2026, 2, 29).is_none());
    assert!(Date::new(2026, 13, 1).is_none());
    assert!(Date::new(2026, 0, 1).is_none());
    assert!(Date::new(2026, 1, 0).is_none());
    assert!(Date::new(10000, 1, 1).is_none());
    assert!(Date::new(2024, 2, 29).is_some());
}
