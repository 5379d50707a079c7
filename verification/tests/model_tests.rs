use ctk_suggest::blocksettings::{
    remove_app_matching, remove_first_match, AppString, BlockSettings, BreakMethod, LockMethod,
};
use ctk_suggest::convert::TimeOfDay;
use ctk_suggest::ctsettings::{
    get_all_ct_blocks, parse_opt_u32_str, BlockInfo, BlockListInfo, ColdTurkeySettings,
};
use ctk_suggest::historydeque::HistoryDeque;
use ctk_suggest::policyset::PolicySet;
use ctk_suggest::schedule::{
    expand_day_selection, schedule_add, schedule_edit, schedule_remove, schedule_renumber,
    str_to_day, Day,
};

#[test]
fn policy_set_insert_replaces_under_the_same_name() {
    let mut ps = PolicySet::new();
    let mut a = BlockSettings::new();
    a.set_lock(LockMethod::Password);
    ps.insert("work".to_string(), BlockSettings::new());
    ps.insert("play".to_string(), BlockSettings::new());
    assert_eq!(ps.len(), 2);
    ps.insert("work".to_string(), a);
    assert_eq!(ps.len(), 2);
    assert_eq!(ps.get("work").unwrap().lock, LockMethod::Password);
    assert_eq!(ps.names(), vec!["work".to_string(), "play".to_string()]);
}

#[test]
fn policy_set_remove_reports_presence() {
    let mut ps = PolicySet::new();
    ps.insert("work".to_string(), BlockSettings::new());
    assert!(ps.contains_block("work"));
    assert!(!ps.contains_block("play"));
    assert!(ps.remove_block("work"));
    assert!(!ps.remove_block("work"));
    assert_eq!(ps.len(), 0);
    assert!(ps.get("work").is_none());
}

#[test]
fn add_block_refuses_an_existing_name() {
    let mut ps = PolicySet::new();
    assert!(ps.add_block("work".to_string(), BlockSettings::new()));
    assert!(!ps.add_block("work".to_string(), BlockSettings::new()));
    assert_eq!(ps.len(), 1);
}

#[test]
fn rule_deletion_swaps_in_the_last_entry() {
    let mut web = vec!["a.com".to_string(), "b.com".to_string(), "c.com".to_string()];
    assert!(remove_first_match(&mut web, "a.com"));
    assert_eq!(web, vec!["c.com".to_string(), "b.com".to_string()]);
    assert!(!remove_first_match(&mut web, "zzz.com"));
    assert_eq!(web, vec!["c.com".to_string(), "b.com".to_string()]);

    let mut apps = vec![
        AppString::File("x.exe".to_string()),
        AppString::Title("Chess".to_string()),
        AppString::Win10("Maps.exe".to_string()),
    ];
    assert!(remove_app_matching(&mut apps, &AppString::Title("Chess".to_string())));
    assert_eq!(
        apps,
        vec![
            AppString::File("x.exe".to_string()),
            AppString::Win10("Maps.exe".to_string()),
        ]
    );
    assert!(!remove_app_matching(&mut apps, &AppString::Folder("x.exe".to_string())));
}

#[test]
fn history_reads_most_recent_first() {
    let mut h: HistoryDeque<String> = HistoryDeque::new();
    assert!(h.read(0).is_none());
    h.write("first".to_string());
    h.write("second".to_string());
    assert_eq!(h.len(), 2);
    assert_eq!(h.read(0).unwrap(), "second");
    assert_eq!(h.read(1).unwrap(), "first");
    assert!(h.read(2).is_none());
}

fn dormant_info() -> BlockInfo {
    BlockInfo {
        allowance: None,
        allowance_remaining: None,
        pomodoro_period_remaining: None,
        pomodoro_period_state: String::new(),
        password: String::new(),
        random_text_length: None,
        schedule_show_all: false,
        block_list: Vec::new(),
        exception_list: Vec::new(),
        title_list: Vec::new(),
    }
}

#[test]
fn dormancy_needs_every_runtime_field_unset() {
    assert!(dormant_info().is_dormant());
    let mut active = dormant_info();
    active.allowance = Some(5);
    assert!(!active.is_dormant());
    let mut listed = dormant_info();
    listed.block_list.push("x.com".to_string());
    assert!(!listed.is_dormant());
    let mut locked = dormant_info();
    locked.password = "p".to_string();
    assert!(!locked.is_dormant());
}

#[test]
fn block_names_come_from_the_settings_export() {
    let settings = ColdTurkeySettings {
        version: 1,
        block_list_info: BlockListInfo {
            blocks: vec![
                ("work".to_string(), dormant_info()),
                ("play".to_string(), dormant_info()),
            ],
        },
        paused: false,
        stats_enabled: false,
        stats_enabled_incognito: false,
        stats_strict: false,
        block_embedded: false,
        block_charity: false,
        block_inactive: false,
        force_allow_file: false,
        is_pro: "free".to_string(),
        ignore_incognito: false,
    };
    assert_eq!(get_all_ct_blocks(Some(&settings)), vec!["work".to_string(), "play".to_string()]);
    assert!(get_all_ct_blocks(None).is_empty());
}

#[test]
fn optional_numbers_read_empty_as_absent() {
    assert_eq!(parse_opt_u32_str(""), Some(None));
    assert_eq!(parse_opt_u32_str("42"), Some(Some(42)));
    assert_eq!(parse_opt_u32_str("x"), None);
}

#[test]
fn day_names_parse_and_others_do_not() {
    assert_eq!(str_to_day("sun"), Ok(Day::Sun));
    assert_eq!(str_to_day("mon"), Ok(Day::Mon));
    assert_eq!(str_to_day("tue"), Ok(Day::Tue));
    assert_eq!(str_to_day("wed"), Ok(Day::Wed));
    assert_eq!(str_to_day("thu"), Ok(Day::Thu));
    assert_eq!(str_to_day("fri"), Ok(Day::Fri));
    assert_eq!(str_to_day("sat"), Ok(Day::Sat));
    assert!(str_to_day("monday").is_err());
    assert!(str_to_day("").is_err());
}

#[test]
fn day_shorthands_expand_to_flags() {
    let wk = expand_day_selection(false, false, false, false, false, false, false, true, false, false);
    assert_eq!(wk, vec![false, true, true, true, true, true, false]);
    let we = expand_day_selection(false, false, false, false, false, false, false, false, true, false);
    assert_eq!(we, vec![true, false, false, false, false, false, true]);
    let all = expand_day_selection(false, false, false, false, false, false, false, false, false, true);
    assert_eq!(all, vec![true; 7]);
}

#[test]
fn editor_add_appends_one_entry_per_selected_day() {
    let mut sched = Vec::new();
    schedule_add(
        &mut sched,
        &vec![false, true, false, true, false, false, false],
        TimeOfDay { hour: 8, minute: 0 },
        TimeOfDay { hour: 9, minute: 30 },
        &BreakMethod::Pomodoro(25, 5),
    );
    assert_eq!(sched.len(), 2);
    assert_eq!(sched[0].id, 0);
    assert_eq!(sched[0].start_time, "1,8,0");
    assert_eq!(sched[0].end_time, "1,9,30");
    assert_eq!(sched[0].break_type, "25,5");
    assert_eq!(sched[1].id, 1);
    assert_eq!(sched[1].start_time, "3,8,0");
}

#[test]
fn editor_edit_rewrites_one_entry_in_place() {
    let mut sched = Vec::new();
    schedule_add(
        &mut sched,
        &vec![true, true, false, false, false, false, false],
        TimeOfDay { hour: 8, minute: 0 },
        TimeOfDay { hour: 9, minute: 0 },
        &BreakMethod::NoBreaks,
    );
    assert!(schedule_edit(
        &mut sched,
        1,
        Day::Fri,
        TimeOfDay { hour: 10, minute: 0 },
        TimeOfDay { hour: 11, minute: 0 },
        &BreakMethod::Allowance(5),
    ));
    assert_eq!(sched[1].id, 1);
    assert_eq!(sched[1].start_time, "5,10,0");
    assert_eq!(sched[1].end_time, "5,11,0");
    assert_eq!(sched[1].break_type, "5");
    assert_eq!(sched[0].start_time, "0,8,0");
    assert!(!schedule_edit(
        &mut sched,
        9,
        Day::Mon,
        TimeOfDay { hour: 1, minute: 0 },
        TimeOfDay { hour: 2, minute: 0 },
        &BreakMethod::NoBreaks,
    ));
}

#[test]
fn editor_remove_renumbers_the_survivors() {
    let mut sched = Vec::new();
    schedule_add(
        &mut sched,
        &vec![true, true, true, true, false, false, false],
        TimeOfDay { hour: 8, minute: 0 },
        TimeOfDay { hour: 9, minute: 0 },
        &BreakMethod::NoBreaks,
    );
    schedule_remove(&mut sched, &vec![1usize, 2usize], false);
    assert_eq!(sched.len(), 2);
    assert_eq!(sched[0].id, 0);
    assert_eq!(sched[0].start_time, "0,8,0");
    assert_eq!(sched[1].id, 1);
    assert_eq!(sched[1].start_time, "3,8,0");
    schedule_remove(&mut sched, &Vec::new(), true);
    assert!(sched.is_empty());
}

#[test]
fn renumbering_makes_ids_positional() {
    let mut sched = Vec::new();
    schedule_add(
        &mut sched,
        &vec![true, true, false, false, false, false, false],
        TimeOfDay { hour: 8, minute: 0 },
        TimeOfDay { hour: 9, minute: 0 },
        &BreakMethod::NoBreaks,
    );
    sched[0].id = 7;
    sched[1].id = 9;
    schedule_renumber(&mut sched);
    assert_eq!(sched[0].id, 0);
    assert_eq!(sched[1].id, 1);
}
