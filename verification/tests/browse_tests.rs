use ctk_suggest::blocksettings::AppString;
use ctk_suggest::browse::{
    classify_path, interpret_command_line, is_exe_or_dir_candidate, is_exe_path,
    parse_browse_command, BrowseCommand,
};

#[test]
fn shell_commands_are_recognized() {
    assert_eq!(
        interpret_command_line("cd /tmp/stuff"),
        BrowseCommand::Cd(Some("/tmp/stuff".to_string()))
    );
    assert_eq!(interpret_command_line("cd"), BrowseCommand::Cd(None));
    assert_eq!(interpret_command_line("cd a b"), BrowseCommand::Cd(None));
    assert_eq!(interpret_command_line("ls"), BrowseCommand::Ls);
    assert_eq!(
        interpret_command_line("search chrome"),
        BrowseCommand::Search("chrome".to_string())
    );
    assert_eq!(interpret_command_line("search"), BrowseCommand::Invalid);
    assert_eq!(interpret_command_line("done"), BrowseCommand::Done);
    assert_eq!(interpret_command_line("quit"), BrowseCommand::Done);
    assert_eq!(interpret_command_line("q"), BrowseCommand::Done);
    assert_eq!(interpret_command_line("open sesame"), BrowseCommand::Invalid);
    assert_eq!(interpret_command_line(""), BrowseCommand::Invalid);
}

#[test]
fn quoted_arguments_are_lexed_shell_style() {
    assert_eq!(
        interpret_command_line("cd \"My Documents\""),
        BrowseCommand::Cd(Some("My Documents".to_string()))
    );
    assert_eq!(
        interpret_command_line("search \"two words\""),
        BrowseCommand::Search("two words".to_string())
    );
}

#[test]
fn unlexable_lines_are_reported_as_such() {
    assert_eq!(interpret_command_line("cd \"unclosed"), BrowseCommand::Unparseable);
}

#[test]
fn token_lists_parse_without_lexing() {
    assert_eq!(
        parse_browse_command(&vec!["cd".to_string(), "x".to_string()]),
        BrowseCommand::Cd(Some("x".to_string()))
    );
    assert_eq!(parse_browse_command(&Vec::new()), BrowseCommand::Invalid);
}

#[test]
fn chosen_entries_classify_by_filesystem_kind() {
    assert_eq!(
        classify_path("C:\\Games", true, false),
        Some(AppString::Folder("C:/Games".to_string()))
    );
    assert_eq!(
        classify_path("C:\\Games\\x.exe", false, true),
        Some(AppString::File("C:/Games/x.exe".to_string()))
    );
    assert_eq!(classify_path("/dev/null", false, false), None);
}

#[test]
fn executable_names_are_detected_by_extension() {
    assert!(is_exe_path("app.exe"));
    assert!(is_exe_path("C:/dir/app.exe"));
    assert!(is_exe_path("C:\\dir\\app.exe"));
    assert!(!is_exe_path(".exe"));
    assert!(!is_exe_path("dir/.exe"));
    assert!(!is_exe_path("app.txt"));
    assert!(!is_exe_path("dir.exe/"));
    assert!(is_exe_or_dir_candidate("anything", true));
    assert!(!is_exe_or_dir_candidate("notes.txt", false));
}
