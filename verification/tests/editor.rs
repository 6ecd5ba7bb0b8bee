use voicevox_playground_tui::editor::{Editor, Mode, Tab};
use voicevox_playground_tui::history::{SessionState, TabSessionState};

#[derive(Clone, Debug, PartialEq)]
struct Inton {
    pitches: Vec<f64>,
    speaker_id: u32,
}

fn dummy_intonation() -> Inton {
    Inton { pitches: vec![6.0], speaker_id: 3 }
}

fn strings(items: &[&str]) -> Vec<String> {
    items.iter().map(|s| s.to_string()).collect()
}

/// An editor holding exactly `lines` in one tab, cursor on the last line.
fn editor_with(lines: &[&str]) -> Editor<Inton> {
    let lines = strings(lines);
    let n = lines.len();
    Editor {
        line_intonations: vec![None; n],
        lines,
        cursor: n - 1,
        folded: false,
        mode: Mode::Normal,
        yank_buf: None,
        tabs: vec![Tab { lines: Vec::new(), intonations: Vec::new(), cursor: 0, folded: false }],
        active_tab: 0,
        count_buf: String::new(),
        command_buf: String::new(),
        help_key_buf: String::new(),
        pending_d: false,
        pending_z: false,
        pending_g: false,
        pending_quote: false,
        pending_clipboard: false,
        status_msg: String::from("ready"),
        speaker_style: None,
    }
}

fn make_editor() -> Editor<Inton> {
    editor_with(&["a", "b", "c"])
}

#[test]
fn take_count_empty_buf_returns_one() {
    let mut e = make_editor();
    assert_eq!(e.take_count(), 1);
}

#[test]
fn take_count_single_digit_returns_it() {
    let mut e = make_editor();
    e.count_buf = "5".to_string();
    assert_eq!(e.take_count(), 5);
    assert!(e.count_buf.is_empty());
}

#[test]
fn take_count_multi_digit_returns_parsed_value() {
    let mut e = make_editor();
    e.count_buf = "10".to_string();
    assert_eq!(e.take_count(), 10);
    assert!(e.count_buf.is_empty());
}

#[test]
fn take_count_zero_returns_one() {
    let mut e = make_editor();
    e.count_buf = "0".to_string();
    assert_eq!(e.take_count(), 1);
}

#[test]
fn delete_trailing_empty_line_keeps_it_deleted() {
    let mut e = editor_with(&["a", ""]);
    e.cursor = 1;
    e.delete_current_line();
    assert_eq!(e.lines, vec!["a"]);
}

#[test]
fn delete_then_paste_below_restores_intonation() {
    let mut e = make_editor();
    e.cursor = 1;
    e.line_intonations[1] = Some(dummy_intonation());
    e.delete_current_line();
    e.paste_below();
    assert_eq!(e.lines, vec!["a", "c", "b"]);
    let restored = e.line_intonations[2].as_ref().expect("p should restore the yanked intonation");
    assert_eq!(restored.pitches, vec![6.0]);
    assert_eq!(restored.speaker_id, 3);
}

#[test]
fn delete_then_paste_above_restores_intonation() {
    let mut e = make_editor();
    e.cursor = 1;
    e.line_intonations[1] = Some(dummy_intonation());
    e.delete_current_line();
    e.paste_above();
    assert_eq!(e.lines, vec!["a", "b", "c"]);
    let restored = e.line_intonations[1].as_ref().expect("P should restore the yanked intonation");
    assert_eq!(restored.pitches, vec![6.0]);
    assert_eq!(restored.speaker_id, 3);
}

#[test]
fn delete_then_paste_above_puts_cursor_back() {
    let mut e = make_editor();
    e.cursor = 1;
    e.delete_current_line();
    e.paste_above();
    assert_eq!(e.cursor, 1);
}

#[test]
fn delete_only_line_leaves_one_empty_line() {
    let mut e = editor_with(&["solo"]);
    let play = e.delete_current_line();
    assert!(!play);
    assert_eq!(e.lines, vec![""]);
    assert_eq!(e.cursor, 0);
    assert_eq!(e.yank_buf.as_ref().map(|y| y.0.clone()), Some("solo".to_string()));
}

#[test]
fn paste_without_yank_does_nothing() {
    let mut e = make_editor();
    assert!(!e.paste_below());
    assert!(!e.paste_above());
    assert_eq!(e.lines, vec!["a", "b", "c"]);
}

#[test]
fn new_editor_compresses_trailing_lines_and_puts_cursor_last() {
    let e: Editor<Inton> = Editor::new(strings(&["a", "", ""]));
    assert_eq!(e.lines, vec!["a", ""]);
    assert_eq!(e.cursor, 1);
    assert_eq!(e.line_intonations.len(), 2);
    assert_eq!(e.status_msg, "ready");
}

#[test]
fn move_cursor_clamps_to_lines() {
    let mut e = make_editor();
    e.cursor = 0;
    assert!(e.move_cursor(10));
    assert_eq!(e.cursor, 2);
    assert!(!e.move_cursor(1));
    assert!(e.move_cursor(-5));
    assert_eq!(e.cursor, 0);
}

#[test]
fn move_cursor_skips_folded_lines() {
    let mut e = editor_with(&["a", " hidden", "b"]);
    e.cursor = 0;
    e.fold();
    assert!(e.move_cursor(1));
    assert_eq!(e.cursor, 2);
}

#[test]
fn fold_moves_cursor_off_hidden_line_to_the_line_above() {
    let mut e = editor_with(&["a", " hidden", "b"]);
    e.cursor = 1;
    e.fold();
    assert!(e.folded);
    assert_eq!(e.cursor, 0);
    assert_eq!(e.visible_line_indices(), vec![0, 2]);
    e.unfold();
    assert!(!e.folded);
    assert_eq!(e.cursor, 0);
}

#[test]
fn fold_with_hidden_first_line_goes_to_first_shown_line() {
    let mut e = editor_with(&[" x", "a"]);
    e.cursor = 0;
    e.fold();
    assert_eq!(e.cursor, 1);
}

#[test]
fn vis_cursor_pos_uses_nearest_shown_line() {
    let mut e = editor_with(&["a", " hidden", " hidden", "b"]);
    e.folded = true;
    e.cursor = 2;
    assert_eq!(e.vis_cursor_pos(), 1);
}

#[test]
fn tabnew_then_tab_prev_and_next_switch_documents() {
    let mut e = make_editor();
    e.tabnew();
    assert_eq!(e.active_tab, 1);
    assert_eq!(e.lines, vec![""]);
    assert_eq!(e.tabs.len(), 2);
    e.tab_prev();
    assert_eq!(e.active_tab, 0);
    assert_eq!(e.lines, vec!["a", "b", "c"]);
    e.tab_next();
    assert_eq!(e.active_tab, 1);
    assert_eq!(e.lines, vec![""]);
    e.tab_next();
    assert_eq!(e.active_tab, 0);
}

#[test]
fn tab_next_then_prev_returns_to_same_tab_and_cursor() {
    let mut e = make_editor();
    e.cursor = 1;
    e.tabnew();
    e.tab_prev();
    let before_cursor = e.cursor;
    e.tab_next();
    e.tab_prev();
    assert_eq!(e.active_tab, 0);
    assert_eq!(e.cursor, before_cursor);
    assert_eq!(e.lines, vec!["a", "b", "c"]);
}

#[test]
fn switch_to_tab_ignores_active_and_out_of_range() {
    let mut e = make_editor();
    e.tabnew();
    e.switch_to_tab(1);
    assert_eq!(e.active_tab, 1);
    e.switch_to_tab(5);
    assert_eq!(e.active_tab, 1);
    e.switch_to_tab(0);
    assert_eq!(e.active_tab, 0);
    assert_eq!(e.lines, vec!["a", "b", "c"]);
}

#[test]
fn single_tab_next_and_prev_do_nothing() {
    let mut e = make_editor();
    e.tab_next();
    e.tab_prev();
    assert_eq!(e.active_tab, 0);
    assert_eq!(e.lines, vec!["a", "b", "c"]);
}

#[test]
fn reset_pending_prefixes_clears_everything() {
    let mut e = make_editor();
    e.pending_d = true;
    e.pending_z = true;
    e.pending_g = true;
    e.pending_quote = true;
    e.pending_clipboard = true;
    e.count_buf = "12".to_string();
    e.reset_pending_prefixes();
    assert!(!e.pending_d && !e.pending_z && !e.pending_g && !e.pending_quote && !e.pending_clipboard);
    assert!(e.count_buf.is_empty());
}

#[test]
fn session_state_default_is_zeroed() {
    let s = SessionState::default();
    assert_eq!(s.active_tab, 0);
    assert!(s.tabs.is_empty());
}

#[test]
fn apply_loaded_history_restores_tabs_and_session_state() {
    let mut e: Editor<Inton> = Editor::new(vec![String::from("")]);
    e.pending_d = true;
    e.pending_g = true;
    e.command_buf = String::from("tabnew");
    e.help_key_buf = String::from("z");

    let all_lines = vec![
        vec![String::from("tab1 line1"), String::from("tab1 line2"), String::from("")],
        vec![String::from("tab2 line1"), String::from("")],
    ];
    let all_intonations = vec![vec![None; 3], vec![None; 2]];
    let session_state = SessionState {
        active_tab: 1,
        tabs: vec![
            TabSessionState { cursor: 1, folded: false },
            TabSessionState { cursor: 0, folded: true },
        ],
    };

    e.apply_loaded_history(all_lines, all_intonations, &session_state);

    assert_eq!(e.active_tab, 1);
    assert_eq!(e.cursor, 0);
    assert!(e.folded);
    assert_eq!(e.lines, vec![String::from("tab2 line1"), String::from("")]);
    assert_eq!(
        e.tabs[0].lines,
        vec![String::from("tab1 line1"), String::from("tab1 line2"), String::from("")]
    );
    assert!(!e.pending_d);
    assert!(!e.pending_g);
    assert!(e.command_buf.is_empty());
    assert!(e.help_key_buf.is_empty());
}

#[test]
fn apply_loaded_history_with_nothing_loaded_gives_one_empty_tab() {
    let mut e = make_editor();
    e.apply_loaded_history(Vec::new(), Vec::new(), &SessionState::default());
    assert_eq!(e.lines, vec![""]);
    assert_eq!(e.tabs.len(), 1);
    assert_eq!(e.active_tab, 0);
    assert_eq!(e.cursor, 0);
}

#[test]
fn apply_loaded_history_fits_intonations_to_lines() {
    let mut e = make_editor();
    e.apply_loaded_history(
        vec![strings(&["x", "y", ""])],
        vec![vec![Some(dummy_intonation())]],
        &SessionState::default(),
    );
    assert_eq!(e.line_intonations.len(), 3);
    assert_eq!(e.line_intonations[0], Some(dummy_intonation()));
    assert_eq!(e.line_intonations[1], None);
    assert_eq!(e.cursor, 2);
}

#[test]
fn restore_session_state_clamps_cursor_and_active_tab() {
    let mut e = make_editor();
    e.tabnew();
    e.switch_to_tab(0);
    let state = SessionState {
        active_tab: 9,
        tabs: vec![TabSessionState { cursor: 99, folded: false }, TabSessionState { cursor: 5, folded: false }],
    };
    e.restore_session_state(&state);
    assert_eq!(e.active_tab, 1);
    assert_eq!(e.cursor, 0);
    assert_eq!(e.tabs[0].cursor, 2);
}

#[test]
fn collect_then_restore_session_round_trips() {
    let mut e = make_editor();
    e.cursor = 1;
    e.tabnew();
    let state = e.collect_session_state();
    assert_eq!(state.active_tab, 1);
    assert_eq!(state.tabs.len(), 2);
    assert_eq!(state.tabs[0], TabSessionState { cursor: 1, folded: false });
    let lines = e.all_tab_lines();
    let intonations = e.all_tab_intonations();
    let mut restored: Editor<Inton> = Editor::new(vec![String::new()]);
    restored.apply_loaded_history(lines, intonations, &state);
    assert_eq!(restored.active_tab, 1);
    assert_eq!(restored.collect_session_state().tabs, state.tabs);
    assert_eq!(restored.tabs[0].lines, vec!["a", "b", "c", ""]);
}

#[test]
fn all_tab_lines_lists_every_tab_in_order() {
    let mut e = make_editor();
    e.line_intonations[0] = Some(dummy_intonation());
    e.tabnew();
    let lines = e.all_tab_lines();
    assert_eq!(lines, vec![strings(&["a", "b", "c"]), strings(&[""])]);
    let ints = e.all_tab_intonations();
    assert_eq!(ints[0][0], Some(dummy_intonation()));
    assert_eq!(ints[1], vec![None]);
}
