use ctk_suggest::blocksettings::{
    encode_break, encode_schedule_time, encode_window, BlockSettings, BreakMethod, RangeWindow,
    ScheduleTimeTuple,
};
use ctk_suggest::convert::TimeOfDay;
use ctk_suggest::decode::{parse_break, parse_schedule_time, parse_window};
use ctk_suggest::digits::{parse_bool_str, parse_u32_dec, parse_u64_dec};
use ctk_suggest::policyset::PolicySet;

#[test]
fn window_round_trips_through_its_encoding() {
    let cases = [
        RangeWindow {
            lock_range: true,
            start_time: TimeOfDay { hour: 9, minute: 0 },
            end_time: TimeOfDay { hour: 17, minute: 0 },
        },
        RangeWindow {
            lock_range: false,
            start_time: TimeOfDay { hour: 0, minute: 0 },
            end_time: TimeOfDay { hour: 23, minute: 59 },
        },
    ];
    for w in cases {
        assert_eq!(parse_window(&encode_window(&w)), Some(w));
    }
}

#[test]
fn break_methods_round_trip_through_their_encodings() {
    for b in [
        BreakMethod::NoBreaks,
        BreakMethod::Allowance(0),
        BreakMethod::Allowance(99),
        BreakMethod::Pomodoro(25, 5),
        BreakMethod::Pomodoro(0, 99),
    ] {
        assert_eq!(parse_break(&encode_break(&b)), Some(b));
    }
}

#[test]
fn schedule_times_round_trip_through_their_encodings() {
    for t in [
        ScheduleTimeTuple::new(0, 0, 0),
        ScheduleTimeTuple::new(1, 22, 0),
        ScheduleTimeTuple::new(6, 23, 55),
    ] {
        assert_eq!(parse_schedule_time(&encode_schedule_time(&t)), Some(t));
    }
}

#[test]
fn malformed_field_encodings_are_rejected() {
    assert_eq!(parse_window("lock@24,0@17,0"), None);
    assert_eq!(parse_window("lock@9,0"), None);
    assert_eq!(parse_window("latch@9,0@17,0"), None);
    assert_eq!(parse_break("100"), None);
    assert_eq!(parse_break("7,7,7"), None);
    assert_eq!(parse_break(""), None);
    assert_eq!(parse_schedule_time("7,0,0"), None);
    assert_eq!(parse_schedule_time("1,24,0"), None);
    assert_eq!(parse_schedule_time("1,10,60"), None);
}

#[test]
fn numeric_and_boolean_strings_parse_exactly() {
    assert_eq!(parse_u64_dec("0"), Some(0));
    assert_eq!(parse_u64_dec("18446744073709551615"), Some(u64::MAX));
    assert_eq!(parse_u64_dec("18446744073709551616"), None);
    assert_eq!(parse_u64_dec(""), None);
    assert_eq!(parse_u64_dec("12a"), None);
    assert_eq!(parse_u32_dec("4294967295"), Some(u32::MAX));
    assert_eq!(parse_u32_dec("4294967296"), None);
    assert_eq!(parse_bool_str("true"), Some(true));
    assert_eq!(parse_bool_str("false"), Some(false));
    assert_eq!(parse_bool_str("TRUE"), None);
    assert_eq!(parse_bool_str(""), None);
}

fn sample_policy_set() -> PolicySet {
    let mut ps = PolicySet::new();
    let mut s = BlockSettings::new();
    s.set_lock(ctk_suggest::blocksettings::LockMethod::Window);
    s.set_break(BreakMethod::Pomodoro(25, 5));
    s.set_web(vec!["youtube.com".to_string(), "reddit.com".to_string()]);
    ps.insert("focus \"quotes\"".to_string(), s);
    ps.insert("other".to_string(), BlockSettings::new());
    ps
}

#[test]
fn serializing_twice_is_byte_identical() {
    let ps = sample_policy_set();
    let once = ps.serialize_pretty();
    let twice = ps.serialize_pretty();
    assert_eq!(once, twice);
}

#[test]
fn empty_policy_set_serializes_to_empty_object() {
    let ps = PolicySet::new();
    assert_eq!(ps.serialize_pretty(), "{}");
}

#[test]
fn serialized_text_is_valid_json_with_string_encoded_fields() {
    let ps = sample_policy_set();
    let text = ps.serialize_pretty();
    let doc: serde_json::Value = serde_json::from_str(&text).expect("output must be valid JSON");
    let block = doc.get("focus \"quotes\"").expect("block name must be a key");
    assert_eq!(block.get("type").unwrap(), "continuous");
    assert_eq!(block.get("lock").unwrap(), "window");
    assert_eq!(block.get("lockUnblock").unwrap(), "true");
    assert_eq!(block.get("restartUnblock").unwrap(), "true");
    assert_eq!(block.get("password").unwrap(), "");
    assert_eq!(block.get("randomTextLength").unwrap(), "30");
    assert_eq!(block.get("break").unwrap(), "25,5");
    assert_eq!(block.get("window").unwrap(), "lock@9,0@17,0");
    let web = block.get("web").unwrap().as_array().unwrap();
    assert_eq!(web.len(), 2);
    assert_eq!(web[0], "youtube.com");
    assert_eq!(web[1], "reddit.com");
    let exceptions = block.get("exceptions").unwrap().as_array().unwrap();
    assert_eq!(exceptions.len(), 1);
    assert_eq!(exceptions[0], "file://*");
    assert!(doc.get("other").is_some());
}

#[test]
fn serialized_schedule_entries_are_nested_objects() {
    let mut ps = PolicySet::new();
    let mut s = BlockSettings::new();
    let mut schedule = Vec::new();
    assert!(ctk_suggest::wizard::append_schedule_entries(
        &mut schedule,
        &vec![1usize, 3usize],
        TimeOfDay { hour: 22, minute: 0 },
        TimeOfDay { hour: 0, minute: 0 },
        BreakMethod::NoBreaks,
    ));
    s.set_schedule(schedule, true);
    ps.insert("night".to_string(), s);
    let text = ps.serialize_pretty();
    let doc: serde_json::Value = serde_json::from_str(&text).unwrap();
    let sched = doc["night"]["schedule"].as_array().unwrap();
    assert_eq!(sched.len(), 2);
    assert_eq!(sched[0]["id"], "0");
    assert_eq!(sched[0]["startTime"], "1,22,0");
    assert_eq!(sched[0]["endTime"], "2,0,0");
    assert_eq!(sched[1]["id"], "1");
    assert_eq!(sched[1]["startTime"], "3,22,0");
    assert_eq!(sched[1]["endTime"], "4,0,0");
    assert_eq!(doc["night"]["type"], "scheduled");
}

#[test]
fn control_characters_in_names_are_escaped() {
    let mut ps = PolicySet::new();
    ps.insert("a\nb\t\\\"".to_string(), BlockSettings::new());
    let text = ps.serialize_pretty();
    let doc: serde_json::Value = serde_json::from_str(&text).unwrap();
    assert!(doc.get("a\nb\t\\\"").is_some());
}
