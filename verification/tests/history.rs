use voicevox_playground_tui::history::{
    history_file_name, is_stale_history_file, join_pitches_suffix, load_all, normalize_loaded_intonations, split_pitches_suffix_text, take_loaded_tab,
    tab_from_loaded, SessionState, TabSessionState,
};

#[test]
fn split_pitches_suffix_text_no_suffix_returns_none() {
    assert_eq!(split_pitches_suffix_text("ずんだもん"), None);
}

#[test]
fn split_pitches_suffix_text_with_suffix_returns_text_and_json() {
    let raw = "ずんだもん\t{\"pitches\":[5.9,6.0,0.0]}";
    assert_eq!(
        split_pitches_suffix_text(raw),
        Some(("ずんだもん".to_string(), "{\"pitches\":[5.9,6.0,0.0]}".to_string()))
    );
}

#[test]
fn split_pitches_suffix_text_tab_but_not_json_returns_none() {
    assert_eq!(split_pitches_suffix_text("some\ttext without pitches"), None);
}

#[test]
fn split_pitches_suffix_text_uses_last_tab() {
    assert_eq!(
        split_pitches_suffix_text("a\tb\t{\"pitches\":[]}"),
        Some(("a\tb".to_string(), "{\"pitches\":[]}".to_string()))
    );
}

#[test]
fn history_file_names_follow_tab_numbers() {
    assert_eq!(history_file_name(0), "history.txt");
    assert_eq!(history_file_name(1), "history2.txt");
    assert_eq!(history_file_name(9), "history10.txt");
}

#[test]
fn stale_history_files_are_those_of_closed_tabs() {
    assert!(!is_stale_history_file("history.txt", 0));
    assert!(!is_stale_history_file("history2.txt", 2));
    assert!(is_stale_history_file("history3.txt", 2));
    assert!(!is_stale_history_file("history1.txt", 0));
    assert!(!is_stale_history_file("historyx.txt", 0));
    assert!(!is_stale_history_file("notes.txt", 0));
}

#[test]
fn tab_from_loaded_empty_file_gives_one_empty_line() {
    let (lines, ints) = tab_from_loaded::<u32>(Vec::new());
    assert_eq!(lines, vec![String::new()]);
    assert_eq!(ints, vec![None]);
    let (lines, ints) = tab_from_loaded(vec![("a".to_string(), Some(7u32)), ("b".to_string(), None)]);
    assert_eq!(lines, vec!["a", "b"]);
    assert_eq!(ints, vec![Some(7), None]);
}

#[test]
fn load_all_without_history_gives_one_empty_tab() {
    let (lines, ints) = load_all::<u32>(Vec::new());
    assert_eq!(lines, vec![vec![String::new()]]);
    assert_eq!(ints, vec![vec![None]]);
    let (lines, ints) = load_all(vec![(vec!["x".to_string()], vec![Some(1u32)]), (vec!["y".to_string()], vec![None])]);
    assert_eq!(lines, vec![vec!["x".to_string()], vec!["y".to_string()]]);
    assert_eq!(ints, vec![vec![Some(1)], vec![None]]);
}

#[test]
fn normalize_loaded_intonations_pads_and_cuts() {
    assert_eq!(normalize_loaded_intonations(3, Some(vec![Some(1u32)])), vec![Some(1), None, None]);
    assert_eq!(normalize_loaded_intonations(1, Some(vec![Some(1u32), Some(2)])), vec![Some(1)]);
    assert_eq!(normalize_loaded_intonations::<u32>(2, None), vec![None, None]);
}

#[test]
fn session_state_copy_keeps_fields() {
    let s = SessionState { active_tab: 2, tabs: vec![TabSessionState { cursor: 5, folded: true }] };
    let c = s.copy();
    assert_eq!(c.active_tab, 2);
    assert_eq!(c.tabs, vec![TabSessionState { cursor: 5, folded: true }]);
}

#[test]
fn saved_line_with_pitches_reads_back() {
    let suffix = "{\"pitches\":[5.5,6.0]}";
    let line = join_pitches_suffix("a\tb", suffix);
    assert_eq!(line, "a\tb\t{\"pitches\":[5.5,6.0]}");
    assert_eq!(
        split_pitches_suffix_text(&line),
        Some(("a\tb".to_string(), suffix.to_string()))
    );
}

#[test]
fn only_files_of_closed_tabs_are_stale() {
    for current in 1..5usize {
        for i in 0..8usize {
            assert_eq!(is_stale_history_file(&history_file_name(i), current), i > 0 && i >= current);
        }
    }
}

#[test]
fn each_tab_has_its_own_history_file() {
    let names: std::collections::HashSet<String> = (0..50usize).map(history_file_name).collect();
    assert_eq!(names.len(), 50);
    assert_eq!(history_file_name(0), "history.txt");
    assert_eq!(history_file_name(1), "history2.txt");
    assert_eq!(history_file_name(9), "history10.txt");
}

#[test]
fn take_loaded_tab_stops_at_first_missing_file() {
    let mut tabs: Vec<u32> = Vec::new();
    assert!(take_loaded_tab(&mut tabs, Some(1)));
    assert!(take_loaded_tab(&mut tabs, Some(2)));
    assert!(!take_loaded_tab(&mut tabs, None));
    assert_eq!(tabs, vec![1, 2]);
}
