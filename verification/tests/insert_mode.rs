use voicevox_playground_tui::editor::{Editor, Mode, Tab};
use voicevox_playground_tui::speakers::{Speaker, SpeakerStyle, SpeakerTable};

#[derive(Clone, Debug, PartialEq)]
struct Inton {
    mora_texts: Vec<String>,
    pitches: Vec<f64>,
    speaker_id: u32,
}

fn style(name: &str, id: u32) -> SpeakerStyle {
    SpeakerStyle { name: name.to_string(), id }
}

/// ずんだもん: ノーマル(3), あまあま(1); 四国めたん: ノーマル(2).
fn setup() -> SpeakerTable {
    SpeakerTable::from_speakers(
        vec![
            Speaker { name: "ずんだもん".to_string(), styles: vec![style("ノーマル", 3), style("あまあま", 1)] },
            Speaker { name: "四国めたん".to_string(), styles: vec![style("ノーマル", 2)] },
        ],
        String::new(),
    )
}

fn dummy_intonation() -> Inton {
    Inton { mora_texts: vec!["ず".to_string(), "ん".to_string()], pitches: vec![5.9, 6.0], speaker_id: 3 }
}

fn make_editor_with_line(line: &str) -> Editor<Inton> {
    Editor::new(vec![line.to_string()])
}

fn editor_with(lines: &[&str]) -> Editor<Inton> {
    let lines: Vec<String> = lines.iter().map(|s| s.to_string()).collect();
    let n = lines.len();
    Editor {
        line_intonations: vec![None; n],
        lines,
        cursor: 0,
        folded: false,
        mode: Mode::Normal,
        yank_buf: None,
        tabs: vec![Tab { lines: Vec::new(), intonations: Vec::new(), cursor: 0, folded: false }],
        active_tab: 0,
        count_buf: String::new(),
        command_buf: String::new(),
        help_key_buf: String::new(),
        pending_d: false,
        pending_z: false,
        pending_g: false,
        pending_quote: false,
        pending_clipboard: false,
        status_msg: String::from("ready"),
        speaker_style: None,
    }
}

#[test]
fn commit_insert_preserves_intonation_when_adding_leading_space() {
    let t = setup();
    let mut e = make_editor_with_line("ずんだもん");
    e.cursor = 0;
    e.line_intonations[0] = Some(dummy_intonation());
    e.commit_insert(&t, " ずんだもん");
    assert!(e.line_intonations[0].is_some());
    assert_eq!(e.lines[0], " ずんだもん");
    assert_eq!(e.mode, Mode::Normal);
}

#[test]
fn commit_insert_preserves_intonation_when_removing_leading_space() {
    let t = setup();
    let mut e = make_editor_with_line(" ずんだもん");
    e.cursor = 0;
    e.line_intonations[0] = Some(dummy_intonation());
    e.commit_insert(&t, "ずんだもん");
    assert!(e.line_intonations[0].is_some());
}

#[test]
fn commit_insert_clears_intonation_when_text_content_changes() {
    let t = setup();
    let mut e = make_editor_with_line("ずんだもん");
    e.cursor = 0;
    e.line_intonations[0] = Some(dummy_intonation());
    e.commit_insert(&t, "めたん");
    assert!(e.line_intonations[0].is_none());
}

#[test]
fn commit_insert_sets_ready_status() {
    let t = setup();
    let mut e = make_editor_with_line("x");
    e.cursor = 0;
    e.status_msg = "-- INSERT --".to_string();
    e.commit_insert(&t, "y");
    assert_eq!(e.status_msg, "ready");
}

#[test]
fn commit_splits_line_where_voice_changes() {
    let t = setup();
    let mut e = make_editor_with_line("old");
    e.cursor = 0;
    e.commit_insert(&t, "ずんだもん喋る[四国めたん]めたん喋る");
    assert_eq!(e.lines, vec!["ずんだもん喋る", "[四国めたん]めたん喋る", ""]);
    assert_eq!(e.line_intonations.len(), 3);
    assert_eq!(e.cursor, 0);
}

#[test]
fn commit_expands_id_tags() {
    let t = setup();
    let mut e = make_editor_with_line("old");
    e.cursor = 0;
    e.commit_insert(&t, "[2]こんにちは");
    assert_eq!(e.lines[0], "[四国めたん]こんにちは");
}

#[test]
fn commit_on_last_blank_line_keeps_one_trailing_blank() {
    let t = setup();
    let mut e = make_editor_with_line("a");
    assert_eq!(e.lines, vec!["a", ""]);
    e.cursor = 1;
    e.commit_insert(&t, "b");
    assert_eq!(e.lines, vec!["a", "b", ""]);
    assert_eq!(e.cursor, 1);
}

#[test]
fn commit_and_insert_below_opens_line_with_voice() {
    let t = setup();
    let mut e = make_editor_with_line("x");
    e.cursor = 0;
    let text = e.commit_and_insert_below(&t, "[四国めたん]こんにちは");
    assert_eq!(text, "[四国めたん]");
    assert_eq!(e.cursor, 1);
    assert_eq!(e.lines[1], "[四国めたん]");
    assert_eq!(e.mode, Mode::Insert);
}

#[test]
fn enter_insert_current_on_blank_line_carries_voice_from_line_above() {
    let t = setup();
    let mut e = editor_with(&["[四国めたん]やあ", ""]);
    e.cursor = 1;
    let text = e.enter_insert_current(&t);
    assert_eq!(text, "[四国めたん]");
    assert_eq!(e.mode, Mode::Insert);
    assert_eq!(e.status_msg, "-- INSERT --");
}

#[test]
fn enter_insert_current_keeps_non_blank_line() {
    let t = setup();
    let mut e = editor_with(&["[あまあま]やあ"]);
    assert_eq!(e.enter_insert_current(&t), "[あまあま]やあ");
}

#[test]
fn enter_insert_below_and_above_insert_lines() {
    let t = setup();
    let mut e = editor_with(&["[四国めたん]やあ", "b"]);
    e.cursor = 0;
    let below = e.enter_insert_below(&t);
    assert_eq!(below, "[四国めたん]");
    assert_eq!(e.lines, vec!["[四国めたん]やあ", "[四国めたん]", "b"]);
    assert_eq!(e.cursor, 1);
    let mut f = editor_with(&["a", "b"]);
    f.cursor = 0;
    let above = f.enter_insert_above(&t);
    assert_eq!(above, "");
    assert_eq!(f.lines, vec!["", "a", "b"]);
    assert_eq!(f.cursor, 0);
    assert_eq!(f.line_intonations.len(), 3);
}

#[test]
fn on_edit_buf_changed_prefetches_expanded_text() {
    let t = setup();
    assert_eq!(Editor::<Inton>::on_edit_buf_changed(&t, "  [2]やあ"), Some("[四国めたん]やあ".to_string()));
    assert_eq!(Editor::<Inton>::on_edit_buf_changed(&t, "   "), None);
}

#[test]
fn status_display_adds_spinner_while_fetching() {
    let mut e = make_editor_with_line("ずんだもん");
    e.status_msg = String::from("[fetching...] line 1");
    let display = e.status_display(true, 0);
    assert!(display.ends_with("[fetching...] line 1"));
    assert_ne!(display, "[fetching...] line 1");
}

#[test]
fn status_display_keeps_finished_fetch_message_without_spinner() {
    let mut e = make_editor_with_line("ずんだもん");
    e.status_msg = String::from("[fetching...] line 1");
    assert_eq!(e.status_display(false, 0), "[fetching...] line 1");
}

#[test]
fn status_display_spinner_turns_with_time() {
    let mut e = make_editor_with_line("x");
    e.status_msg = String::from("m");
    assert_eq!(e.status_display(true, 0), "- m");
    assert_eq!(e.status_display(true, 130), "\\ m");
}

#[test]
fn status_display_in_insert_mode_shows_fetching_alone() {
    let mut e = make_editor_with_line("x");
    e.status_msg = String::from("-- INSERT --");
    e.mode = Mode::Insert;
    assert_eq!(e.status_display(true, 130), "[fetching...]");
    assert_eq!(e.status_display(false, 130), "-- INSERT --");
}

#[test]
fn execute_command_tabnew_opens_tab() {
    let mut e = make_editor_with_line("x");
    e.command_buf = " tabnew ".to_string();
    e.execute_command();
    assert_eq!(e.tabs.len(), 2);
    assert_eq!(e.active_tab, 1);
    assert_eq!(e.lines, vec![""]);
}

#[test]
fn execute_command_reports_unknown_command() {
    let mut e = make_editor_with_line("x");
    e.command_buf = "wq".to_string();
    e.execute_command();
    assert_eq!(e.status_msg, "Unknown command: wq");
    assert_eq!(e.tabs.len(), 1);
}
