use voicevox_playground_tui::editor::{Editor, Mode};
use voicevox_playground_tui::events::{
    focus_change, handle_blocking_overlay, should_exit_during_startup, should_ignore_key_event, LoadedHistory, Poll,
    RuntimeStartupEvent, StartupError, StartupProgress, UiEvent,
};
use voicevox_playground_tui::history::SessionState;
use voicevox_playground_tui::keys::{
    normal_command, split_text_lines, Effect, KeyCode, KeyInput, NormalCommand,
};
use voicevox_playground_tui::mascot::PsdAvailability;
use voicevox_playground_tui::overlay::OverlayState;
use voicevox_playground_tui::speakers::{Speaker, SpeakerStyle, SpeakerTable};

fn style(name: &str, id: u32) -> SpeakerStyle {
    SpeakerStyle { name: name.to_string(), id }
}

fn setup() -> SpeakerTable {
    SpeakerTable::from_speakers(
        vec![
            Speaker { name: "ずんだもん".to_string(), styles: vec![style("ノーマル", 3), style("あまあま", 1)] },
            Speaker { name: "四国めたん".to_string(), styles: vec![style("ノーマル", 2)] },
        ],
        String::new(),
    )
}

fn key(code: KeyCode) -> KeyInput {
    KeyInput { code, ctrl: false, shift: false, other_modifier: false, press: true }
}

fn ch(c: char) -> KeyInput {
    key(KeyCode::Char(c))
}

fn new_editor(lines: &[&str]) -> Editor<u32> {
    Editor::new(lines.iter().map(|s| s.to_string()).collect())
}

fn press(e: &mut Editor<u32>, t: &SpeakerTable, k: KeyInput) -> Effect {
    let avail = PsdAvailability::new();
    let cmd = normal_command(k.code, e.pending_d, e.pending_z, e.pending_g, e.pending_quote, e.pending_clipboard);
    e.apply_normal_command(t, &avail, cmd)
}

#[test]
fn focus_change_detects_focus_events() {
    assert_eq!(focus_change(UiEvent::FocusGained), Some(true));
    assert_eq!(focus_change(UiEvent::FocusLost), Some(false));
    assert_eq!(focus_change(UiEvent::Key(key(KeyCode::Enter))), None);
}

#[test]
fn should_ignore_key_event_only_ignores_non_press_key_events() {
    let press_ev = UiEvent::Key(key(KeyCode::Enter));
    let release = UiEvent::Key(KeyInput { press: false, ..key(KeyCode::Enter) });
    assert!(!should_ignore_key_event(press_ev));
    assert!(should_ignore_key_event(release));
    assert!(!should_ignore_key_event(UiEvent::FocusGained));
}

#[test]
fn handle_blocking_overlay_returns_false_without_overlay() {
    let mut overlay = OverlayState::new();
    assert!(!handle_blocking_overlay(&mut overlay, UiEvent::Key(key(KeyCode::Enter))));
}

#[test]
fn handle_blocking_overlay_takes_keys_until_enter() {
    let mut overlay = OverlayState::new();
    overlay.set_blocking_overlay_message("error".to_string());
    assert!(handle_blocking_overlay(&mut overlay, UiEvent::Key(ch('x'))));
    assert!(overlay.has_blocking_overlay_message());
    assert!(handle_blocking_overlay(&mut overlay, UiEvent::Key(key(KeyCode::Enter))));
    assert!(!overlay.has_blocking_overlay_message());
}

#[test]
fn should_exit_during_startup_only_on_ctrl_c_press() {
    let ctrl_c = UiEvent::Key(KeyInput { ctrl: true, ..ch('c') });
    let plain_c = UiEvent::Key(ch('c'));
    let release_ctrl_c = UiEvent::Key(KeyInput { ctrl: true, press: false, ..ch('c') });
    assert!(should_exit_during_startup(ctrl_c));
    assert!(!should_exit_during_startup(plain_c));
    assert!(!should_exit_during_startup(release_ctrl_c));
}

#[test]
fn handle_startup_load_returns_error_when_loader_fails() {
    let mut e = new_editor(&[""]);
    let err = e.handle_startup_load(Poll::Ready(Err("boom".to_string()))).unwrap_err();
    assert_eq!(err.message(), "startup error");
    assert_eq!(err.source(), Some("boom".to_string()));
}

#[test]
fn handle_startup_load_returns_error_when_loader_disconnects() {
    let mut e = new_editor(&[""]);
    let err = e.handle_startup_load(Poll::Disconnected).unwrap_err();
    assert_eq!(err.message(), "startup error: history loader disconnected");
    assert_eq!(err, StartupError::HistoryLoaderDisconnected);
}

#[test]
fn handle_startup_load_applies_loaded_history() {
    let mut e = new_editor(&[""]);
    assert_eq!(e.handle_startup_load(Poll::Empty), Ok(false));
    let loaded = LoadedHistory {
        all_lines: vec![vec!["x".to_string()]],
        all_intonations: vec![vec![None]],
        session_state: SessionState::default(),
    };
    assert_eq!(e.handle_startup_load(Poll::Ready(Ok(loaded))), Ok(true));
    assert_eq!(e.lines, vec!["x", ""]);
}

#[test]
fn handle_runtime_startup_updates_status_on_progress_event() {
    let mut e = new_editor(&[""]);
    let finished = e
        .handle_runtime_startup(Poll::Ready(RuntimeStartupEvent::Status("[startup] checking VOICEVOX...".to_string())))
        .unwrap();
    assert!(!finished);
    assert_eq!(e.status_msg, "[startup] checking VOICEVOX...");
}

#[test]
fn handle_runtime_startup_returns_true_when_loader_succeeds() {
    let mut e = new_editor(&[""]);
    assert_eq!(e.handle_runtime_startup(Poll::Ready(RuntimeStartupEvent::Ready(Ok(())))), Ok(true));
}

#[test]
fn handle_runtime_startup_returns_error_when_loader_fails() {
    let mut e = new_editor(&[""]);
    let err = e.handle_runtime_startup(Poll::Ready(RuntimeStartupEvent::Ready(Err("boom".to_string())))).unwrap_err();
    assert_eq!(err.message(), "startup error");
    assert_eq!(err.source(), Some("boom".to_string()));
}

#[test]
fn handle_runtime_startup_returns_error_when_loader_disconnects() {
    let mut e = new_editor(&[""]);
    let err = e.handle_runtime_startup(Poll::Disconnected).unwrap_err();
    assert_eq!(err.message(), "startup error: runtime loader disconnected");
}

#[test]
fn handle_mode_event_question_mark_enters_help_mode() {
    let t = setup();
    let mut e = new_editor(&[""]);
    press(&mut e, &t, ch('?'));
    assert_eq!(e.mode, Mode::Help);
}

#[test]
fn handle_mode_event_h_does_not_enter_help_mode() {
    let t = setup();
    let mut e = new_editor(&[""]);
    press(&mut e, &t, ch('h'));
    assert_eq!(e.mode, Mode::Normal);
}

#[test]
fn handle_mode_event_space_previews_in_speaker_style_mode() {
    let t = setup();
    let avail = PsdAvailability::new();
    let mut e = new_editor(&["[四国めたん]こんにちは"]);
    e.cursor = 0;
    e.enter_speaker_style_mode(&t, &avail);
    let effect = e.handle_speaker_style_key(&t, &avail, ch(' '));
    assert!(matches!(effect, Effect::Preview(ref text) if text == "[四国めたん]こんにちは"));
    assert_eq!(e.mode, Mode::SpeakerStyle);
}

#[test]
fn handle_mode_event_p_previews_in_speaker_style_mode() {
    let t = setup();
    let avail = PsdAvailability::new();
    let mut e = new_editor(&["[四国めたん]こんにちは"]);
    e.cursor = 0;
    e.enter_speaker_style_mode(&t, &avail);
    let effect = e.handle_speaker_style_key(&t, &avail, ch('p'));
    assert!(matches!(effect, Effect::Preview(ref text) if text == "[四国めたん]こんにちは"));
    assert_eq!(e.mode, Mode::SpeakerStyle);
}

#[test]
fn count_prefix_moves_several_lines() {
    let t = setup();
    let mut e = new_editor(&["a", "b", "c", "d"]);
    e.cursor = 0;
    press(&mut e, &t, ch('2'));
    assert_eq!(e.count_buf, "2");
    let effect = press(&mut e, &t, ch('j'));
    assert!(matches!(effect, Effect::PlayAndPrefetch));
    assert_eq!(e.cursor, 2);
    assert!(e.count_buf.is_empty());
}

#[test]
fn count_keeps_at_most_six_digits() {
    let t = setup();
    let mut e = new_editor(&["a"]);
    for _ in 0..8 {
        press(&mut e, &t, ch('9'));
    }
    assert_eq!(e.count_buf, "999999");
}

#[test]
fn dd_deletes_and_quote_plus_p_asks_for_clipboard() {
    let t = setup();
    let mut e = new_editor(&["a", "b"]);
    e.cursor = 0;
    press(&mut e, &t, ch('d'));
    assert!(e.pending_d);
    press(&mut e, &t, ch('d'));
    assert_eq!(e.lines, vec!["b", ""]);
    press(&mut e, &t, ch('"'));
    press(&mut e, &t, ch('+'));
    assert!(e.pending_clipboard);
    let effect = press(&mut e, &t, ch('p'));
    assert!(matches!(effect, Effect::ClipboardPaste { below: true }));
}

#[test]
fn zm_folds_and_gt_moves_tab() {
    let t = setup();
    let mut e = new_editor(&["a", " hidden"]);
    e.cursor = 1;
    press(&mut e, &t, ch('z'));
    press(&mut e, &t, ch('m'));
    assert!(e.folded);
    assert_eq!(e.cursor, 0);
    e.command_buf = "tabnew".to_string();
    e.execute_command();
    press(&mut e, &t, ch('g'));
    let effect = press(&mut e, &t, ch('t'));
    assert!(matches!(effect, Effect::Prefetch));
    assert_eq!(e.active_tab, 0);
}

#[test]
fn colon_opens_command_line_and_enter_runs_it() {
    let t = setup();
    let mut e = new_editor(&["a"]);
    press(&mut e, &t, ch(':'));
    assert_eq!(e.mode, Mode::Command);
    for c in "tabnew".chars() {
        e.handle_command_key(ch(c));
    }
    e.handle_command_key(key(KeyCode::Backspace));
    assert_eq!(e.command_buf, "tabne");
    e.handle_command_key(ch('w'));
    let effect = e.handle_command_key(key(KeyCode::Enter));
    assert!(matches!(effect, Effect::Prefetch));
    assert_eq!(e.mode, Mode::Normal);
    assert_eq!(e.tabs.len(), 2);
    assert!(e.command_buf.is_empty());
}

#[test]
fn help_menu_runs_typed_key() {
    let t = setup();
    let avail = PsdAvailability::new();
    let mut e = new_editor(&["a", " b"]);
    press(&mut e, &t, ch('?'));
    assert_eq!(e.mode, Mode::Help);
    e.handle_help_key(&t, &avail, ch('z'));
    assert_eq!(e.help_key_buf, "z");
    e.handle_help_key(&t, &avail, ch('m'));
    assert!(e.folded);
    assert_eq!(e.mode, Mode::Normal);
    press(&mut e, &t, ch('?'));
    e.handle_help_key(&t, &avail, key(KeyCode::Esc));
    assert_eq!(e.mode, Mode::Normal);
}

#[test]
fn normal_command_table() {
    assert_eq!(normal_command(KeyCode::Char('q'), false, false, false, false, false), NormalCommand::Quit);
    assert_eq!(normal_command(KeyCode::Char('m'), false, false, false, false, false), NormalCommand::Reset);
    assert_eq!(normal_command(KeyCode::Char('m'), false, true, false, false, false), NormalCommand::Fold);
    assert_eq!(normal_command(KeyCode::Char('P'), false, false, false, false, true), NormalCommand::PasteAboveClipboard);
    assert_eq!(normal_command(KeyCode::Enter, false, false, false, false, false), NormalCommand::MoveDown);
    assert_eq!(normal_command(KeyCode::Char('7'), false, false, false, false, false), NormalCommand::CountDigit('7'));
}

#[test]
fn split_text_lines_follows_str_lines() {
    assert_eq!(split_text_lines("a\nb\r\nc"), vec!["a", "b", "c"]);
    assert_eq!(split_text_lines("a\n"), vec!["a"]);
    assert_eq!(split_text_lines(""), Vec::<String>::new());
    assert_eq!(split_text_lines("\n\nx"), vec!["", "", "x"]);
    assert_eq!(split_text_lines("a\rb"), vec!["a\rb"]);
    let s = "x\ny\r\n\nz\r";
    let expected: Vec<String> = s.lines().map(|l| l.to_string()).collect();
    assert_eq!(split_text_lines(s), expected);
}

#[test]
fn clipboard_lines_are_pasted_below_cursor() {
    let mut e = new_editor(&["a", "b"]);
    e.cursor = 0;
    assert!(e.paste_lines(vec!["x".to_string(), "y".to_string()], true));
    assert_eq!(e.lines, vec!["a", "x", "y", "b", ""]);
    assert_eq!(e.cursor, 1);
    assert!(e.paste_lines(vec!["z".to_string()], false));
    assert_eq!(e.lines, vec!["a", "z", "x", "y", "b", ""]);
    assert!(!e.paste_lines(Vec::new(), true));
}

#[test]
fn insert_keys_commit_or_open_line() {
    let t = setup();
    let mut e = new_editor(&["x"]);
    e.cursor = 0;
    e.mode = Mode::Insert;
    assert_eq!(e.handle_insert_key(&t, ch('a'), "xa"), None);
    let r = e.handle_insert_key(&t, key(KeyCode::Enter), "xa");
    assert_eq!(r, Some((0, Some(String::new()))));
    assert_eq!(e.lines, vec!["xa", "", ""]);
    let r = e.handle_insert_key(&t, key(KeyCode::Esc), "y");
    assert_eq!(r, Some((1, None)));
    assert_eq!(e.mode, Mode::Normal);
    let shifted = KeyInput { shift: true, ..key(KeyCode::Enter) };
    e.mode = Mode::Insert;
    assert_eq!(e.handle_insert_key(&t, shifted, "q"), None);
}

#[test]
fn help_menu_j_closes_and_moves_down() {
    let t = setup();
    let avail = PsdAvailability::new();
    let mut e = new_editor(&["a", "b", "c"]);
    e.cursor = 0;
    press(&mut e, &t, ch('?'));
    let effect = e.handle_help_key(&t, &avail, ch('j'));
    assert!(matches!(effect, Effect::PlayAndPrefetch));
    assert_eq!(e.mode, Mode::Normal);
    assert_eq!(e.cursor, 1);
    assert!(e.help_key_buf.is_empty());
}

#[test]
fn speaker_style_j_moves_selection_and_previews() {
    let t = setup();
    let avail = PsdAvailability::new();
    let mut e = new_editor(&["こんにちは"]);
    e.cursor = 0;
    e.enter_speaker_style_mode(&t, &avail);
    let before = e.speaker_style.as_ref().map(|s| (s.speaker_index, s.style_index));
    let effect = e.handle_speaker_style_key(&t, &avail, ch('j'));
    let after = e.speaker_style.as_ref().map(|s| (s.speaker_index, s.style_index));
    assert_ne!(before, after);
    assert!(matches!(effect, Effect::Preview(_)));
    assert!(e.status_msg.starts_with("[preview] "));
}

#[test]
fn reset_key_keeps_the_mode() {
    let t = setup();
    let mut e = new_editor(&["a"]);
    press(&mut e, &t, ch('h'));
    assert_eq!(e.mode, Mode::Normal);
}

#[test]
fn speaker_style_command_opens_chooser_on_cursor_line_voice() {
    let t = setup();
    let mut e = new_editor(&["a", "[四国めたん]こんにちは"]);
    e.cursor = 1;
    e.status_msg = "before".to_string();
    let lines_before = e.lines.clone();
    let effect = press(&mut e, &t, ch('s'));
    assert!(matches!(effect, Effect::Nothing));
    assert_eq!(e.mode, Mode::SpeakerStyle);
    assert_eq!(e.status_msg, "-- SPEAKER/STYLE --");
    let st = e.speaker_style.as_ref().expect("chooser open");
    assert_eq!(st.original_line, "[四国めたん]こんにちは");
    assert_eq!(st.previous_status_msg, "before");
    assert_eq!(st.original_ctx.char_name, "四国めたん");
    assert_eq!(st.original_ctx.speaker_id, 2);
    assert_eq!(e.lines, lines_before);
}

#[test]
fn opening_help_keeps_the_document() {
    let t = setup();
    let mut e = new_editor(&["a", "b"]);
    e.cursor = 1;
    let lines_before = e.lines.clone();
    press(&mut e, &t, ch('2'));
    press(&mut e, &t, ch('?'));
    assert_eq!(e.mode, Mode::Help);
    assert_eq!(e.lines, lines_before);
    assert_eq!(e.cursor, 1);
    assert!(e.count_buf.is_empty());
}

#[test]
fn startup_progress_inits_once_after_both_loads() {
    let mut p = StartupProgress::new(true, true);
    assert!(p.pending());
    assert!(!p.autosave_due(120_000, 60_000));
    p.history_done();
    assert!(!p.take_init());
    p.runtime_done();
    assert!(p.autosave_due(60_000, 60_000));
    assert!(!p.autosave_due(59_999, 60_000));
    assert!(p.take_init());
    assert!(!p.take_init());
    let mut q = StartupProgress::new(false, false);
    assert!(q.take_init());
}

#[test]
fn left_key_opens_help() {
    let t = setup();
    let mut e = new_editor(&["a"]);
    press(&mut e, &t, key(KeyCode::Left));
    assert_eq!(e.mode, Mode::Help);
    assert_eq!(normal_command(KeyCode::Left, false, false, false, false, false), NormalCommand::HelpMode);
}
