use repo_archiver::age::{Age, AgeError, AgePicker, AgeUnit, PickerAction};
use repo_archiver::date::Date;
use repo_archiver::keys::Key;

fn day(year: i32, month: u32, day: u32) -> Date {
    Date { year, month, day }
}

#[test]
fn parse_years_and_months() {
    assert_eq!(Age::parse("8y"), Ok(Age::Years(8)));
    assert_eq!(Age::parse("6m"), Ok(Age::Months(6)));
    assert_eq!(Age::parse("+3y"), Ok(Age::Years(3)));
}

#[test]
fn parse_trims_and_lowercases() {
    assert_eq!(Age::parse("  6M  "), Ok(Age::Months(6)));
    assert_eq!(Age::parse("\t12Y\n"), Ok(Age::Years(12)));
}

#[test]
fn parse_rejects_empty() {
    assert_eq!(Age::parse(""), Err(AgeError::Empty));
    assert_eq!(Age::parse("   "), Err(AgeError::Empty));
}

#[test]
fn parse_rejects_bad_number() {
    assert_eq!(Age::parse("xy"), Err(AgeError::InvalidNumber));
    assert_eq!(Age::parse("y"), Err(AgeError::InvalidNumber));
    assert_eq!(Age::parse("-2y"), Err(AgeError::InvalidNumber));
    assert_eq!(Age::parse("99999999999y"), Err(AgeError::InvalidNumber));
    assert_eq!(Age::parse("1 2y"), Err(AgeError::InvalidNumber));
}

#[test]
fn parse_rejects_bad_unit() {
    assert_eq!(Age::parse("8x"), Err(AgeError::InvalidUnit));
    assert_eq!(Age::parse("8d"), Err(AgeError::InvalidUnit));
    assert_eq!(Age::parse("5é"), Err(AgeError::InvalidUnit));
}

#[test]
fn parse_largest_magnitude() {
    assert_eq!(Age::parse("4294967295m"), Ok(Age::Months(4294967295)));
    assert_eq!(Age::parse("4294967296m"), Err(AgeError::InvalidNumber));
}

#[test]
fn parse_normalized_is_exact() {
    assert_eq!(Age::parse_normalized("10y"), Ok(Age::Years(10)));
    assert_eq!(Age::parse_normalized("10Y"), Err(AgeError::InvalidUnit));
    assert_eq!(Age::parse_normalized(" 1y"), Err(AgeError::InvalidNumber));
}

#[test]
fn display_pluralizes() {
    assert_eq!(Age::Years(1).display(), "1 year");
    assert_eq!(Age::Years(2).display(), "2 years");
    assert_eq!(Age::Months(1).display(), "1 month");
    assert_eq!(Age::Months(12).display(), "12 months");
    assert_eq!(Age::Months(0).display(), "0 months");
    assert_eq!(Age::Years(4294967295).display(), "4294967295 years");
}

#[test]
fn valid_tokens_give_cutoff_before_today_and_round_trip() {
    let today = day(2024, 5, 17);
    for token in ["1y", "8y", "6m", "11m", "25m", "10y"] {
        let age = Age::parse(token).unwrap();
        let cutoff = age.cutoff_date(today).unwrap();
        assert!(cutoff.is_before(&today), "{token}");
        let label = age.display();
        let digits = &token[..token.len() - 1];
        assert!(label.starts_with(digits), "{label}");
        let noun = if token.ends_with('y') { "year" } else { "month" };
        assert!(label.contains(noun));
        assert_eq!(label.ends_with('s'), digits != "1");
    }
}

#[test]
fn cutoff_years() {
    assert_eq!(Age::Years(2).cutoff_date(day(2024, 1, 1)), Some(day(2022, 1, 1)));
    assert_eq!(Age::Years(0).cutoff_date(day(2024, 1, 1)), Some(day(2024, 1, 1)));
}

#[test]
fn cutoff_years_falls_back_on_leap_day() {
    assert_eq!(Age::Years(1).cutoff_date(day(2024, 2, 29)), Some(day(2024, 2, 29)));
    assert_eq!(Age::Years(4).cutoff_date(day(2024, 2, 29)), Some(day(2020, 2, 29)));
}

#[test]
fn cutoff_years_out_of_range_falls_back() {
    assert_eq!(Age::Years(4294967295).cutoff_date(day(2024, 3, 1)), Some(day(2024, 3, 1)));
}

#[test]
fn cutoff_months() {
    assert_eq!(Age::Months(6).cutoff_date(day(2024, 1, 1)), Some(day(2023, 7, 1)));
    assert_eq!(Age::Months(1).cutoff_date(day(2024, 3, 31)), Some(day(2024, 2, 29)));
    assert_eq!(Age::Months(13).cutoff_date(day(2023, 3, 31)), Some(day(2022, 2, 28)));
    assert_eq!(Age::Months(0).cutoff_date(day(2023, 3, 31)), Some(day(2023, 3, 31)));
}

#[test]
fn cutoff_months_out_of_range() {
    assert_eq!(Age::Months(4294967295).cutoff_date(day(2024, 1, 1)), None);
}

#[test]
fn picker_starts_at_two_years() {
    let p = AgePicker::new();
    assert_eq!(p.value, 2);
    assert_eq!(p.unit, AgeUnit::Years);
    assert_eq!(p.to_age(), Age::Years(2));
    assert_eq!(p.unit_str(), "years");
}

#[test]
fn picker_clamps_years() {
    let mut p = AgePicker::new();
    for _ in 0..20 {
        p.increment();
        assert!(p.value >= 1 && p.value <= 10);
    }
    assert_eq!(p.value, 10);
    for _ in 0..20 {
        p.decrement();
        assert!(p.value >= 1 && p.value <= 10);
    }
    assert_eq!(p.value, 1);
}

#[test]
fn picker_clamps_months() {
    let mut p = AgePicker { value: 5, unit: AgeUnit::Months };
    for _ in 0..20 {
        p.increment();
        assert!(p.value >= 1 && p.value <= 11);
    }
    assert_eq!(p.value, 11);
    assert_eq!(p.unit_str(), "months");
}

#[test]
fn picker_toggle_lowers_only() {
    let mut p = AgePicker { value: 11, unit: AgeUnit::Months };
    p.toggle_unit();
    assert_eq!(p, AgePicker { value: 10, unit: AgeUnit::Years });
    p.toggle_unit();
    assert_eq!(p, AgePicker { value: 10, unit: AgeUnit::Months });
    let mut q = AgePicker { value: 3, unit: AgeUnit::Years };
    q.toggle_unit();
    assert_eq!(q, AgePicker { value: 3, unit: AgeUnit::Months });
}

#[test]
fn picker_keys() {
    let mut p = AgePicker::new();
    assert_eq!(p.handle_key(Key::Up), PickerAction::Stay);
    assert_eq!(p.value, 3);
    assert_eq!(p.handle_key(Key::Char('j')), PickerAction::Stay);
    assert_eq!(p.value, 2);
    assert_eq!(p.handle_key(Key::Tab), PickerAction::Stay);
    assert_eq!(p.unit, AgeUnit::Months);
    assert_eq!(p.handle_key(Key::Char('x')), PickerAction::Stay);
    assert_eq!(p.handle_key(Key::Enter), PickerAction::Confirm(Age::Months(2)));
    assert_eq!(p.handle_key(Key::Char('q')), PickerAction::Quit);
    assert_eq!(p.handle_key(Key::Esc), PickerAction::Quit);
}

#[test]
fn parse_trims_unicode_white_space() {
    assert_eq!(Age::parse("\u{3000}3y\u{a0}"), Ok(Age::Years(3)));
    assert_eq!(Age::parse("\u{2003}"), Err(AgeError::Empty));
}
