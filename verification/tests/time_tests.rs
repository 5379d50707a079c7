use ctk_suggest::convert::{str_to_date, str_to_time, DateYmd, TimeOfDay};

#[test]
fn twenty_four_hour_times_parse() {
    assert_eq!(str_to_time("09:00").unwrap(), TimeOfDay { hour: 9, minute: 0 });
    assert_eq!(str_to_time("17:00").unwrap(), TimeOfDay { hour: 17, minute: 0 });
    assert_eq!(str_to_time("00:00").unwrap(), TimeOfDay { hour: 0, minute: 0 });
    assert_eq!(str_to_time("23:59").unwrap(), TimeOfDay { hour: 23, minute: 59 });
}

#[test]
fn twelve_hour_times_with_am_pm_parse() {
    assert_eq!(str_to_time("5:30PM").unwrap(), TimeOfDay { hour: 17, minute: 30 });
    assert_eq!(str_to_time("5:30pm").unwrap(), TimeOfDay { hour: 17, minute: 30 });
    assert_eq!(str_to_time("05:30am").unwrap(), TimeOfDay { hour: 5, minute: 30 });
    assert_eq!(str_to_time("12:05am").unwrap(), TimeOfDay { hour: 0, minute: 5 });
    assert_eq!(str_to_time("12:05pm").unwrap(), TimeOfDay { hour: 12, minute: 5 });
}

#[test]
fn the_first_matching_pattern_decides() {
    // "07:30" matches the canonical 24-hour pattern before any 12-hour
    // variant could see it, so it always reads as 07:30.
    assert_eq!(str_to_time("07:30").unwrap(), TimeOfDay { hour: 7, minute: 30 });
}

#[test]
fn unparsable_times_are_errors() {
    assert!(str_to_time("25:99").is_err());
    assert!(str_to_time("banana").is_err());
    assert!(str_to_time("").is_err());
}

#[test]
fn dates_parse_in_all_accepted_shapes() {
    assert_eq!(str_to_date("2024-03-01").unwrap(), DateYmd { year: 2024, month: 3, day: 1 });
    assert_eq!(str_to_date("14 March 2024").unwrap(), DateYmd { year: 2024, month: 3, day: 14 });
    assert_eq!(str_to_date("March 14 2024").unwrap(), DateYmd { year: 2024, month: 3, day: 14 });
    assert_eq!(str_to_date("01/02/2024").unwrap(), DateYmd { year: 2024, month: 2, day: 1 });
}

#[test]
fn unparsable_dates_are_errors() {
    assert!(str_to_date("yesterday").is_err());
    assert!(str_to_date("2024-13-01").is_err());
}
