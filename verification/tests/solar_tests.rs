use argus::datetime::{format_iso, julian_micro_to_civil, to_julian_micro, CivilDate, CivilDateTime};
use argus::solar::{
    get_solar_times, is_daytime, get_next_transition, solar_times_jd, solar_get_times,
    solar_is_day, solar_get_next_transition, Location,
};

fn nyc() -> Location {
    Location::default()
}

fn date(y: i64, m: i64, d: i64) -> CivilDate {
    CivilDate { year: y, month: m, day: d }
}

#[test]
fn test_solar_times_new_york() {
    let location = Location::default();
    let d = date(2024, 6, 21); // Summer solstice
    let times = get_solar_times(&d, &location, 0, 0);

    // Summer solstice should have long days (around 900+ minutes)
    assert!(times.day_length > 800, "Day length should be long on summer solstice");
}

#[test]
fn test_is_daytime() {
    let location = Location::default();
    // This check must return without a panic for any reference instant.
    let _ = is_daytime(&location, 0, 0, &date(2024, 6, 21), 0);
}

#[test]
fn new_york_winter_day_is_short() {
    let times = get_solar_times(&date(2024, 12, 21), &nyc(), 0, 0);
    assert!(times.day_length < 600, "day length {}", times.day_length);
}

#[test]
fn new_york_summer_day_exceeds_800_minutes() {
    let times = get_solar_times(&date(2024, 6, 21), &nyc(), 0, -240);
    assert!(times.day_length > 800, "day length {}", times.day_length);
    assert!(times.day_length <= 1440);
}

#[test]
fn polar_summer_is_a_full_day() {
    let polar = Location {
        latitude_udeg: 75_000_000,
        longitude_udeg: 0,
        timezone: String::new(),
    };
    let times = get_solar_times(&date(2024, 6, 21), &polar, 0, 0);
    assert!(times.day_length >= 1439, "day length {}", times.day_length);
}

#[test]
fn polar_winter_is_a_degenerate_day() {
    let polar = Location {
        latitude_udeg: 75_000_000,
        longitude_udeg: 0,
        timezone: String::new(),
    };
    let times = get_solar_times(&date(2024, 12, 21), &polar, 0, 0);
    assert!(times.day_length <= 1, "day length {}", times.day_length);
}

#[test]
fn sunrise_before_noon_before_sunset_off_the_poles() {
    let dates = [date(2024, 6, 21), date(2024, 12, 21), date(2024, 3, 1), date(1999, 9, 9)];
    let lats: [i64; 4] = [40_712_800, -33_868_800, 59_999_999, 0];
    for d in dates.iter() {
        for lat in lats.iter() {
            let jd = to_julian_micro(d);
            let (rise, noon, set) = solar_times_jd(jd, *lat, -74_006_000);
            assert!(rise < noon, "lat {} date {:?}", lat, d);
            assert!(noon < set, "lat {} date {:?}", lat, d);
        }
    }
}

#[test]
fn julian_number_of_the_millennium_change() {
    assert_eq!(to_julian_micro(&date(2000, 1, 1)), 2_451_544_500_000);
}

#[test]
fn julian_conversion_round_trips() {
    let dates = [
        date(1583, 1, 1),
        date(1999, 12, 31),
        date(2000, 1, 1),
        date(2024, 2, 29),
        date(2024, 6, 21),
        date(9999, 12, 31),
    ];
    for d in dates.iter() {
        let jd = to_julian_micro(d);
        let back = julian_micro_to_civil(jd);
        assert_eq!((back.year, back.month, back.day), (d.year, d.month, d.day));
        assert_eq!((back.hour, back.minute, back.second), (0, 0, 0));
    }
}

#[test]
fn iso_formatting_pads_every_field() {
    let dt = CivilDateTime { year: 2024, month: 6, day: 3, hour: 7, minute: 4, second: 5 };
    assert_eq!(format_iso(&dt, -240), "2024-06-03T07:04:05-04:00");
    assert_eq!(format_iso(&dt, 90), "2024-06-03T07:04:05+01:30");
    assert_eq!(format_iso(&dt, 0), "2024-06-03T07:04:05+00:00");
}

#[test]
fn day_flag_tracks_the_reference_instant() {
    let d = date(2024, 6, 21);
    let jd = to_julian_micro(&d);
    let (rise, noon, set) = solar_times_jd(jd, 40_712_800, -74_006_000);
    let at_noon = get_solar_times(&d, &nyc(), noon * 1440, 0);
    assert!(at_noon.is_day);
    let before_rise = get_solar_times(&d, &nyc(), rise * 1440 - 1, 0);
    assert!(!before_rise.is_day);
    let at_set = get_solar_times(&d, &nyc(), set * 1440, 0);
    assert!(!at_set.is_day);
}

#[test]
fn next_transition_walks_through_the_day() {
    let d = date(2024, 6, 21);
    let loc = nyc();
    let jd = to_julian_micro(&d);
    let (rise, _noon, set) = solar_times_jd(jd, loc.latitude_udeg, loc.longitude_udeg);
    let (_, to_day) = get_next_transition(&loc, 0, 0, &d, rise * 1440 - 10, 0);
    assert!(to_day);
    let (_, to_day2) = get_next_transition(&loc, 0, 0, &d, rise * 1440 + 10, 0);
    assert!(!to_day2);
    let (_, to_day3) = get_next_transition(&loc, 0, 0, &d, set * 1440 + 10, 0);
    assert!(to_day3);
}

#[test]
fn sunrise_offsets_shift_the_day_window() {
    let d = date(2024, 6, 21);
    let loc = nyc();
    let jd = to_julian_micro(&d);
    let (rise, _noon, _set) = solar_times_jd(jd, loc.latitude_udeg, loc.longitude_udeg);
    // Nudge sunrise 30 minutes later: an instant just after the plain
    // sunrise is then still night.
    let now = rise * 1440 + 1_000_000;
    assert!(is_daytime(&loc, 0, 0, &d, now));
    assert!(!is_daytime(&loc, 30, 0, &d, now));
}

#[test]
fn clock_commands_pin_their_range_errors() {
    assert_eq!(
        solar_get_times(91_000_000, 0, String::new()).unwrap_err(),
        "location out of range"
    );
    assert_eq!(
        solar_is_day(0, 200_000_000, 0, 0).unwrap_err(),
        "argument out of range"
    );
    assert_eq!(
        solar_get_next_transition(0, 0, 2000, 0).unwrap_err(),
        "argument out of range"
    );
    // With arguments in range the machine clock is the only thing that can
    // refuse, and the test machine's clock sits inside the calendar window.
    assert!(solar_get_times(40_712_800, -74_006_000, String::new()).is_ok());
    assert!(solar_is_day(40_712_800, -74_006_000, 30, -30).is_ok());
    assert!(solar_get_next_transition(40_712_800, -74_006_000, 0, 0).is_ok());
}
