use ctk_suggest::blocksettings::{
    encode_schedule_time, AppString, BlockSettings, BreakMethod, LockMethod, RangeWindow,
};
use ctk_suggest::convert::TimeOfDay;
use ctk_suggest::wizard::{
    append_schedule_entries, break_method_from_selection, break_minutes_valid, file_name_for,
    lock_method_from_selection, push_nonempty, random_text_length_valid, save_file_name,
    schedule_times_valid, win10_apps_from_choices, win10_catalog,
};

#[test]
fn monday_wednesday_midnight_schedule_rolls_the_end_day() {
    let mut schedule = Vec::new();
    let ok = append_schedule_entries(
        &mut schedule,
        &vec![1usize, 3usize],
        TimeOfDay { hour: 22, minute: 0 },
        TimeOfDay { hour: 0, minute: 0 },
        BreakMethod::NoBreaks,
    );
    assert!(ok);
    assert_eq!(schedule.len(), 2);
    assert_eq!(schedule[0].id, 0);
    assert_eq!(encode_schedule_time(&schedule[0].start_time), "1,22,0");
    assert_eq!(encode_schedule_time(&schedule[0].end_time), "2,0,0");
    assert_eq!(schedule[1].id, 1);
    assert_eq!(encode_schedule_time(&schedule[1].start_time), "3,22,0");
    assert_eq!(encode_schedule_time(&schedule[1].end_time), "4,0,0");
}

#[test]
fn saturday_midnight_schedule_rolls_to_sunday() {
    let mut schedule = Vec::new();
    assert!(append_schedule_entries(
        &mut schedule,
        &vec![6usize],
        TimeOfDay { hour: 23, minute: 30 },
        TimeOfDay { hour: 0, minute: 0 },
        BreakMethod::NoBreaks,
    ));
    assert_eq!(schedule[0].end_time.0, 0);
}

#[test]
fn out_of_order_schedule_times_are_rejected_unchanged() {
    let mut schedule = Vec::new();
    let ok = append_schedule_entries(
        &mut schedule,
        &vec![2usize],
        TimeOfDay { hour: 10, minute: 0 },
        TimeOfDay { hour: 9, minute: 0 },
        BreakMethod::NoBreaks,
    );
    assert!(!ok);
    assert!(schedule.is_empty());
}

#[test]
fn off_grid_minutes_are_rejected() {
    assert!(!schedule_times_valid(
        &TimeOfDay { hour: 9, minute: 3 },
        &TimeOfDay { hour: 10, minute: 0 },
    ));
    assert!(!schedule_times_valid(
        &TimeOfDay { hour: 9, minute: 0 },
        &TimeOfDay { hour: 10, minute: 1 },
    ));
    assert!(schedule_times_valid(
        &TimeOfDay { hour: 9, minute: 0 },
        &TimeOfDay { hour: 10, minute: 55 },
    ));
    assert!(schedule_times_valid(
        &TimeOfDay { hour: 9, minute: 0 },
        &TimeOfDay { hour: 0, minute: 0 },
    ));
}

#[test]
fn schedule_ids_continue_existing_numbering() {
    let mut schedule = Vec::new();
    assert!(append_schedule_entries(
        &mut schedule,
        &vec![0usize, 1, 2],
        TimeOfDay { hour: 8, minute: 0 },
        TimeOfDay { hour: 9, minute: 0 },
        BreakMethod::Allowance(10),
    ));
    assert!(append_schedule_entries(
        &mut schedule,
        &vec![4usize],
        TimeOfDay { hour: 20, minute: 0 },
        TimeOfDay { hour: 21, minute: 0 },
        BreakMethod::NoBreaks,
    ));
    let ids: Vec<usize> = schedule.iter().map(|e| e.id).collect();
    assert_eq!(ids, vec![0, 1, 2, 3]);
}

#[test]
fn empty_answer_ends_collection_with_no_entries() {
    let mut web = Vec::new();
    assert!(!push_nonempty(&mut web, String::new()));
    assert!(web.is_empty());
}

#[test]
fn nonempty_answers_accumulate_in_order() {
    let mut web = Vec::new();
    assert!(push_nonempty(&mut web, "a.com".to_string()));
    assert!(push_nonempty(&mut web, "b.com".to_string()));
    assert!(!push_nonempty(&mut web, String::new()));
    assert_eq!(web, vec!["a.com".to_string(), "b.com".to_string()]);
}

#[test]
fn random_text_length_bound_is_999() {
    assert!(!random_text_length_valid(1000));
    assert!(random_text_length_valid(999));
    assert!(random_text_length_valid(0));
}

#[test]
fn break_minutes_bound_is_99() {
    assert!(break_minutes_valid(0));
    assert!(break_minutes_valid(99));
    assert!(!break_minutes_valid(100));
}

#[test]
fn menu_selections_map_to_methods() {
    assert_eq!(lock_method_from_selection(0), LockMethod::NoLock);
    assert_eq!(lock_method_from_selection(1), LockMethod::RandomText);
    assert_eq!(lock_method_from_selection(2), LockMethod::Window);
    assert_eq!(lock_method_from_selection(3), LockMethod::Restart);
    assert_eq!(lock_method_from_selection(4), LockMethod::Password);
    assert_eq!(lock_method_from_selection(9), LockMethod::NoLock);
    assert_eq!(break_method_from_selection(0, 1, 2, 3), BreakMethod::NoBreaks);
    assert_eq!(break_method_from_selection(1, 15, 2, 3), BreakMethod::Allowance(15));
    assert_eq!(break_method_from_selection(2, 1, 25, 5), BreakMethod::Pomodoro(25, 5));
}

#[test]
fn method_fields_survive_lock_switches() {
    let mut s = BlockSettings::new();
    s.set_random_text_length(150);
    s.set_password("pw123".to_string());
    s.set_window(RangeWindow {
        lock_range: false,
        start_time: TimeOfDay { hour: 1, minute: 0 },
        end_time: TimeOfDay { hour: 2, minute: 0 },
    });
    s.set_lock(LockMethod::RandomText);
    s.set_lock(LockMethod::Password);
    assert_eq!(s.lock, LockMethod::Password);
    assert_eq!(s.random_text_length, 150);
    assert_eq!(s.password, "pw123");
    assert!(!s.window.lock_range);
}

#[test]
fn win10_catalog_has_99_entries_offered_by_index() {
    let catalog = win10_catalog();
    assert_eq!(catalog.len(), 99);
    assert_eq!(catalog[0], "3DViewer.exe");
    assert_eq!(catalog[11], "Calculator.exe");
    assert_eq!(catalog[98], "YourPhoneServer.exe");
    let picks = win10_apps_from_choices(&vec![11usize, 0usize], &catalog);
    assert_eq!(
        picks,
        vec![
            AppString::Win10("Calculator.exe".to_string()),
            AppString::Win10("3DViewer.exe".to_string()),
        ]
    );
}

#[test]
fn file_names_get_the_fixed_extension() {
    assert_eq!(file_name_for("mylist", 0), "mylist.ctbbl");
    assert_eq!(file_name_for("", 7), "ctk_7.ctbbl");
    let generated = save_file_name("");
    assert!(generated.starts_with("ctk_"));
    assert!(generated.ends_with(".ctbbl"));
    assert_eq!(save_file_name("plan"), "plan.ctbbl");
}
