use ctk_suggest::blocksettings::{
    encode_app, encode_break, encode_lock, encode_sched_type, encode_schedule_time, encode_window,
    AppString, BlockSettings, BreakMethod, LockMethod, RangeWindow, SchedType, ScheduleTimeTuple,
};
use ctk_suggest::convert::TimeOfDay;
use ctk_suggest::digits::{bool_to_string, u16_to_dec_string, u64_to_dec_string, usize_to_dec_string};

#[test]
fn window_lock_range_encodes_as_expected() {
    let w = RangeWindow {
        lock_range: true,
        start_time: TimeOfDay { hour: 9, minute: 0 },
        end_time: TimeOfDay { hour: 17, minute: 0 },
    };
    assert_eq!(encode_window(&w), "lock@9,0@17,0");
}

#[test]
fn window_unlock_range_encodes_with_un_prefix() {
    let w = RangeWindow {
        lock_range: false,
        start_time: TimeOfDay { hour: 8, minute: 30 },
        end_time: TimeOfDay { hour: 23, minute: 55 },
    };
    assert_eq!(encode_window(&w), "unlock@8,30@23,55");
}

#[test]
fn pomodoro_break_encodes_as_expected() {
    assert_eq!(encode_break(&BreakMethod::Pomodoro(25, 5)), "25,5");
}

#[test]
fn allowance_and_no_breaks_encode_as_expected() {
    assert_eq!(encode_break(&BreakMethod::Allowance(15)), "15");
    assert_eq!(encode_break(&BreakMethod::NoBreaks), "none");
}

#[test]
fn schedule_time_encodes_day_hour_minute() {
    assert_eq!(encode_schedule_time(&ScheduleTimeTuple::new(1, 22, 0)), "1,22,0");
    assert_eq!(encode_schedule_time(&ScheduleTimeTuple::new(6, 0, 5)), "6,0,5");
}

#[test]
fn app_targets_encode_with_kind_tags() {
    assert_eq!(
        encode_app(&AppString::File("C:\\Games\\game.exe".to_string())),
        "file:C:/Games/game.exe"
    );
    assert_eq!(encode_app(&AppString::Folder("C:\\Games".to_string())), "folder:C:/Games");
    assert_eq!(encode_app(&AppString::Win10("Calculator.exe".to_string())), "win10:Calculator.exe");
    assert_eq!(encode_app(&AppString::Title("Chess".to_string())), "title:Chess");
}

#[test]
fn lock_methods_encode_with_window_tag_for_time_range() {
    assert_eq!(encode_lock(&LockMethod::NoLock), "none");
    assert_eq!(encode_lock(&LockMethod::RandomText), "randomText");
    assert_eq!(encode_lock(&LockMethod::Window), "window");
    assert_eq!(encode_lock(&LockMethod::Restart), "restart");
    assert_eq!(encode_lock(&LockMethod::Password), "password");
}

#[test]
fn sched_types_encode_lowercase() {
    assert_eq!(encode_sched_type(&SchedType::Continuous), "continuous");
    assert_eq!(encode_sched_type(&SchedType::Scheduled), "scheduled");
}

#[test]
fn decimal_strings_render_exactly() {
    assert_eq!(u64_to_dec_string(0), "0");
    assert_eq!(u64_to_dec_string(7), "7");
    assert_eq!(u64_to_dec_string(30), "30");
    assert_eq!(u64_to_dec_string(18446744073709551615), "18446744073709551615");
    assert_eq!(u16_to_dec_string(999), "999");
    assert_eq!(usize_to_dec_string(12345), "12345");
}

#[test]
fn booleans_render_as_words() {
    assert_eq!(bool_to_string(true), "true");
    assert_eq!(bool_to_string(false), "false");
}

#[test]
fn default_block_settings_match_documented_defaults() {
    let s = BlockSettings::new();
    assert_eq!(encode_sched_type(&s.sched_type), "continuous");
    assert_eq!(encode_lock(&s.lock), "none");
    assert!(s.lock_unblock);
    assert!(s.restart_unblock);
    assert_eq!(s.password, "");
    assert_eq!(s.random_text_length, 30);
    assert_eq!(encode_break(&s.break_type), "none");
    assert_eq!(encode_window(&s.window), "lock@9,0@17,0");
    assert_eq!(s.exceptions, vec!["file://*".to_string()]);
    assert!(s.web.is_empty());
    assert!(s.apps.is_empty());
    assert!(s.schedule.is_empty());
    assert!(s.custom_users.is_empty());
}
