//! The legacy UI-string coercions, preserved bit-for-bit.

use recurrent_events::types::{OccurenceRestriction, Period};
use recurrent_events::ui::{parse_u8, u8_to_string, UIEnum};

fn coerce(s: &str) -> Period {
    Period::from(UIEnum(s.to_string()))
}

#[test]
fn coerce_hourly_is_weekly() {
    assert_eq!(coerce("Hourly"), Period::Weekly);
}

#[test]
fn coerce_daily_is_weekly() {
    assert_eq!(coerce("Daily"), Period::Weekly);
}

#[test]
fn coerce_weekly() {
    assert_eq!(coerce("Weekly"), Period::Weekly);
}

#[test]
fn coerce_biweekly() {
    assert_eq!(coerce("Biweekly"), Period::Biweekly);
}

#[test]
fn coerce_monthly() {
    assert_eq!(coerce("Monthly"), Period::Monthly);
}

#[test]
fn coerce_bimonthly() {
    assert_eq!(coerce("Bimonthly"), Period::Bimonthly);
}

#[test]
fn coerce_annually_is_monthly() {
    assert_eq!(coerce("Annually"), Period::Monthly);
}

#[test]
fn coerce_biannually_is_bimonthly() {
    assert_eq!(coerce("Biannually"), Period::Bimonthly);
}

#[test]
fn coerce_numeric_is_per24() {
    assert_eq!(coerce("7"), Period::Per24(7));
    assert_eq!(coerce("0"), Period::Per24(0));
    assert_eq!(coerce("255"), Period::Per24(255));
}

#[test]
fn coerce_numeric_with_plus_and_zeros() {
    assert_eq!(coerce("+7"), Period::Per24(7));
    assert_eq!(coerce("007"), Period::Per24(7));
}

#[test]
fn coerce_bogus_is_daily() {
    assert_eq!(coerce("bogus"), Period::Daily);
}

#[test]
fn coerce_non_numbers_are_daily() {
    assert_eq!(coerce(""), Period::Daily);
    assert_eq!(coerce("+"), Period::Daily);
    assert_eq!(coerce("-7"), Period::Daily);
    assert_eq!(coerce("12a"), Period::Daily);
    assert_eq!(coerce(" 7"), Period::Daily);
}

#[test]
fn coerce_numeric_overflow_is_daily() {
    assert_eq!(coerce("256"), Period::Daily);
    assert_eq!(coerce("99999"), Period::Daily);
}

#[test]
fn parse_u8_accepts_canonical_and_signed_forms() {
    assert_eq!(parse_u8("0"), Some(0));
    assert_eq!(parse_u8("42"), Some(42));
    assert_eq!(parse_u8("255"), Some(255));
    assert_eq!(parse_u8("+255"), Some(255));
    assert_eq!(parse_u8("00042"), Some(42));
}

#[test]
fn parse_u8_rejects_bad_input() {
    assert_eq!(parse_u8(""), None);
    assert_eq!(parse_u8("+"), None);
    assert_eq!(parse_u8("256"), None);
    assert_eq!(parse_u8("-1"), None);
    assert_eq!(parse_u8("4 2"), None);
    assert_eq!(parse_u8("4a"), None);
}

#[test]
fn u8_to_string_is_canonical_decimal() {
    assert_eq!(u8_to_string(0), "0");
    assert_eq!(u8_to_string(7), "7");
    assert_eq!(u8_to_string(10), "10");
    assert_eq!(u8_to_string(42), "42");
    assert_eq!(u8_to_string(100), "100");
    assert_eq!(u8_to_string(255), "255");
}

#[test]
fn period_ui_names() {
    assert_eq!(UIEnum::from(Period::Weekly).0, "Weekly");
    assert_eq!(UIEnum::from(Period::Hourly).0, "Hourly");
    assert_eq!(UIEnum::from(Period::Biannually).0, "Biannually");
    assert_eq!(UIEnum::from(Period::Per24(6)).0, "Per24(6)");
    assert_eq!(UIEnum::from(Period::Per24(255)).0, "Per24(255)");
}

#[test]
fn period_round_trip_through_ui() {
    for p in [Period::Weekly, Period::Biweekly, Period::Monthly, Period::Bimonthly] {
        assert_eq!(Period::from(UIEnum::from(p)), p);
    }
    // the legacy mapping is lossy: the parameterized variant's wire form is
    // not a bare number, so it folds onto the default
    assert_eq!(Period::from(UIEnum::from(Period::Per24(3))), Period::Daily);
}

#[test]
fn coerce_restriction() {
    assert_eq!(
        OccurenceRestriction::from(UIEnum("OnlyWeekdays".to_string())),
        OccurenceRestriction::OnlyWeekdays
    );
    assert_eq!(
        OccurenceRestriction::from(UIEnum("OnlyWeekends".to_string())),
        OccurenceRestriction::OnlyWeekends
    );
    assert_eq!(
        OccurenceRestriction::from(UIEnum("None".to_string())),
        OccurenceRestriction::NoRestriction
    );
    assert_eq!(
        OccurenceRestriction::from(UIEnum("whatever".to_string())),
        OccurenceRestriction::NoRestriction
    );
}

#[test]
fn restriction_ui_names() {
    assert_eq!(
        UIEnum::from(OccurenceRestriction::OnlyWeekdays).0,
        "OnlyWeekdays"
    );
    assert_eq!(
        UIEnum::from(OccurenceRestriction::OnlyWeekends).0,
        "OnlyWeekends"
    );
    assert_eq!(UIEnum::from(OccurenceRestriction::NoRestriction).0, "None");
}
