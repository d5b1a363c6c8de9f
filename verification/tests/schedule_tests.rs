use argus::datetime::CivilDate;
use argus::schedule::{
    evaluate_schedule, is_date_in_holiday, parse_u32, parse_u64, split_char, Holiday,
    MonthlyThemes, ThemeSchedule,
};
use argus::solar::Location;

fn date(y: i64, m: i64, d: i64) -> CivilDate {
    CivilDate { year: y, month: m, day: d }
}

fn wrap_holiday() -> Holiday {
    Holiday {
        name: String::from("Turn of the year"),
        theme: String::from("winter"),
        start_date: String::from("12-30"),
        end_date: String::from("1-2"),
        year: None,
        enabled: true,
    }
}

#[test]
fn holiday_wraps_the_turn_of_the_year() {
    let h = wrap_holiday();
    assert!(is_date_in_holiday(&date(2024, 12, 30), &h));
    assert!(is_date_in_holiday(&date(2024, 12, 31), &h));
    assert!(is_date_in_holiday(&date(2025, 1, 1), &h));
    assert!(is_date_in_holiday(&date(2025, 1, 2), &h));
    assert!(!is_date_in_holiday(&date(2025, 1, 3), &h));
    assert!(!is_date_in_holiday(&date(2024, 12, 29), &h));
}

#[test]
fn disabled_holiday_never_matches() {
    let mut h = wrap_holiday();
    h.enabled = false;
    assert!(!is_date_in_holiday(&date(2024, 12, 31), &h));
}

#[test]
fn year_filter_restricts_a_holiday() {
    let mut h = wrap_holiday();
    h.year = Some(2024);
    assert!(is_date_in_holiday(&date(2024, 12, 31), &h));
    assert!(!is_date_in_holiday(&date(2025, 12, 31), &h));
}

#[test]
fn malformed_holiday_dates_never_match() {
    let mut h = wrap_holiday();
    h.start_date = String::from("december-30");
    assert!(!is_date_in_holiday(&date(2024, 12, 31), &h));
    let mut h2 = wrap_holiday();
    h2.end_date = String::from("1-2-3");
    assert!(!is_date_in_holiday(&date(2024, 12, 31), &h2));
}

#[test]
fn plain_range_holiday_matches_inclusively() {
    let mut h = wrap_holiday();
    h.start_date = String::from("7-1");
    h.end_date = String::from("7-4");
    assert!(is_date_in_holiday(&date(2024, 7, 1), &h));
    assert!(is_date_in_holiday(&date(2024, 7, 4), &h));
    assert!(!is_date_in_holiday(&date(2024, 6, 30), &h));
    assert!(!is_date_in_holiday(&date(2024, 7, 5), &h));
}

fn schedule_with_holiday(mode: &str) -> ThemeSchedule {
    let mut s = ThemeSchedule::default();
    s.default_mode = String::from(mode);
    s.day_night_enabled = false;
    s.fixed_theme = Some(String::from("pinned"));
    s.monthly.december = Some(String::from("advent"));
    s.holidays = vec![wrap_holiday()];
    s
}

#[test]
fn fixed_mode_ignores_a_matching_holiday() {
    let s = schedule_with_holiday("fixed");
    let e = evaluate_schedule(&s, &date(2024, 12, 31), 0, 0);
    assert_eq!(e.reason, "fixed");
    assert_eq!(e.theme_id, "pinned");
    assert!(e.holiday.is_none());
}

#[test]
fn holiday_beats_monthly_in_monthly_mode() {
    let s = schedule_with_holiday("monthly");
    let e = evaluate_schedule(&s, &date(2024, 12, 31), 0, 0);
    assert_eq!(e.reason, "holiday");
    assert_eq!(e.theme_id, "winter");
    assert_eq!(e.holiday.as_deref(), Some("Turn of the year"));
}

#[test]
fn monthly_theme_applies_outside_holidays() {
    let s = schedule_with_holiday("monthly");
    let e = evaluate_schedule(&s, &date(2024, 12, 10), 0, 0);
    assert_eq!(e.reason, "monthly");
    assert_eq!(e.theme_id, "advent");
    assert!(e.holiday.is_none());
}

#[test]
fn first_matching_holiday_wins() {
    let mut s = schedule_with_holiday("monthly");
    let mut second = wrap_holiday();
    second.name = String::from("Shadowed");
    second.theme = String::from("other");
    s.holidays.push(second);
    let e = evaluate_schedule(&s, &date(2024, 12, 31), 0, 0);
    assert_eq!(e.theme_id, "winter");
    assert_eq!(e.holiday.as_deref(), Some("Turn of the year"));
}

#[test]
fn unset_monthly_slot_gives_an_empty_theme() {
    let s = schedule_with_holiday("monthly");
    let e = evaluate_schedule(&s, &date(2024, 5, 10), 0, 0);
    assert_eq!(e.reason, "monthly");
    assert_eq!(e.theme_id, "");
}

#[test]
fn fixed_variant_is_used_when_switching_is_off() {
    let mut s = schedule_with_holiday("monthly");
    s.fixed_variant = Some(String::from("night"));
    let e = evaluate_schedule(&s, &date(2024, 5, 10), 0, 0);
    assert_eq!(e.variant, "night");
    assert!(e.next_change.is_none());
    assert!(e.next_change_type.is_none());
    s.fixed_variant = None;
    let e2 = evaluate_schedule(&s, &date(2024, 5, 10), 0, 0);
    assert_eq!(e2.variant, "day");
}

#[test]
fn day_night_switching_reports_the_next_change() {
    let mut s = schedule_with_holiday("monthly");
    s.day_night_enabled = true;
    s.location = Location::default();
    let e = evaluate_schedule(&s, &date(2024, 6, 21), 0, 0);
    assert_eq!(e.next_change_type.as_deref(), Some("variant"));
    assert!(e.next_change.is_some());
    assert!(e.variant == "day" || e.variant == "night");
}

#[test]
fn monthly_table_covers_the_twelve_months() {
    let mut m = MonthlyThemes::default();
    assert!(m.get(1).is_none());
    m.june = Some(String::from("beach"));
    assert_eq!(m.get(6).map(|s| s.as_str()), Some("beach"));
    assert!(m.get(0).is_none());
    assert!(m.get(13).is_none());
}

#[test]
fn number_parsing_follows_the_standard_parser() {
    assert_eq!(parse_u32("12"), Some(12));
    assert_eq!(parse_u32("+7"), Some(7));
    assert_eq!(parse_u32(""), None);
    assert_eq!(parse_u32("+"), None);
    assert_eq!(parse_u32("1x"), None);
    assert_eq!(parse_u32("4294967295"), Some(u32::MAX));
    assert_eq!(parse_u32("4294967296"), None);
    assert_eq!(parse_u64("18446744073709551615"), Some(u64::MAX));
    assert_eq!(parse_u64("18446744073709551616"), None);
    assert_eq!(parse_u64("1700000000"), Some(1_700_000_000));
}

#[test]
fn splitting_keeps_empty_pieces() {
    let parts = split_char("a-b--c", '-');
    let views: Vec<&str> = parts.iter().map(|s| s.as_str()).collect();
    assert_eq!(views, vec!["a", "b", "", "c"]);
    let lone = split_char("", '-');
    assert_eq!(lone.len(), 1);
    assert_eq!(lone[0].as_str(), "");
}

#[test]
fn default_schedule_is_monthly_with_switching_on() {
    let s = ThemeSchedule::default();
    assert_eq!(s.default_mode, "monthly");
    assert!(s.day_night_enabled);
    assert_eq!(s.sunrise_offset, 0);
    assert_eq!(s.sunset_offset, 0);
    assert!(s.holidays.is_empty());
    assert!(s.fixed_theme.is_none());
    assert!(s.fixed_variant.is_none());
    assert_eq!(s.location.latitude_udeg, 40_712_800);
    assert_eq!(s.location.longitude_udeg, -74_006_000);
    assert_eq!(s.location.timezone, "America/New_York");
}
