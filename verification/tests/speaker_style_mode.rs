use voicevox_playground_tui::chooser::{speaker_style_speaker_items, SpeakerStyleFocus};
use voicevox_playground_tui::editor::{Editor, Mode};
use voicevox_playground_tui::mascot::PsdAvailability;
use voicevox_playground_tui::speakers::{Speaker, SpeakerStyle, SpeakerTable};

#[derive(Clone, Debug, PartialEq)]
struct Inton {
    pitches: Vec<f64>,
    speaker_id: u32,
}

fn style(name: &str, id: u32) -> SpeakerStyle {
    SpeakerStyle { name: name.to_string(), id }
}

/// ずんだもん: ノーマル(3), あまあま(1); 四国めたん: ノーマル(2).
fn setup() -> SpeakerTable {
    SpeakerTable::from_speakers(
        vec![
            Speaker { name: "ずんだもん".to_string(), styles: vec![style("ノーマル", 3), style("あまあま", 1)] },
            Speaker { name: "四国めたん".to_string(), styles: vec![style("ノーマル", 2)] },
        ],
        String::new(),
    )
}

fn no_psd() -> PsdAvailability {
    PsdAvailability::set_loaded_psd_file_names(Vec::new())
}

fn make_editor_with_line(line: &str) -> Editor<Inton> {
    let mut e = Editor::new(vec![line.to_string()]);
    e.cursor = 0;
    e
}

#[test]
fn enter_speaker_style_mode_uses_current_line_context() {
    let t = setup();
    let avail = no_psd();
    let mut e = make_editor_with_line("[四国めたん]こんにちは");
    e.enter_speaker_style_mode(&t, &avail);
    let state = e.speaker_style.as_ref().expect("the chooser is open");
    assert_eq!(e.mode, Mode::SpeakerStyle);
    assert_eq!(state.original_ctx.char_name, "四国めたん");
    assert_eq!(state.original_ctx.style_name, "ノーマル");
    assert_eq!(state.focus, SpeakerStyleFocus::Speaker);
    assert_eq!(state.speaker_index, 1);
}

#[test]
fn speaker_change_resets_style_to_first_style_and_returns_preview_line() {
    let t = setup();
    let avail = no_psd();
    let mut e = make_editor_with_line("[あまあま]おはよう");
    e.enter_speaker_style_mode(&t, &avail);
    let preview_line = e.speaker_style_adjust_selection(&t, &avail, 1).expect("a preview line");
    let state = e.speaker_style.as_ref().expect("the chooser stays open");
    assert_eq!(state.speaker_index, 1);
    assert_eq!(state.style_index, 0);
    let ctx = e.speaker_style_selected_ctx(&t, &avail).expect("a selected voice");
    assert_eq!(ctx.char_name, "四国めたん");
    assert_eq!(ctx.style_name, "ノーマル");
    assert_eq!(preview_line, "[四国めたん]おはよう");
}

#[test]
fn confirm_without_change_keeps_original_line_representation() {
    let t = setup();
    let avail = no_psd();
    let mut e = make_editor_with_line("[3]おはよう");
    e.status_msg = String::from("ready");
    e.enter_speaker_style_mode(&t, &avail);
    let changed = e.confirm_speaker_style_mode(&t, &avail);
    assert!(!changed);
    assert_eq!(e.mode, Mode::Normal);
    assert_eq!(e.lines[0], "[3]おはよう");
    assert_eq!(e.status_msg, "ready");
}

#[test]
fn confirm_change_rewrites_line_and_clears_intonation() {
    let t = setup();
    let avail = no_psd();
    let mut e = make_editor_with_line(" [四国めたん]おはよう[meta]");
    e.line_intonations[0] = Some(Inton { pitches: vec![5.0], speaker_id: 2 });
    e.enter_speaker_style_mode(&t, &avail);
    let _ = e.speaker_style_adjust_selection(&t, &avail, -1);
    let changed = e.confirm_speaker_style_mode(&t, &avail);
    assert!(changed);
    assert_eq!(e.mode, Mode::Normal);
    assert_eq!(e.lines[0], " おはよう[meta]");
    assert!(e.line_intonations[0].is_none());
    assert_eq!(e.status_msg, "[speaker/style] [ずんだもん][ノーマル]");
}

#[test]
fn cancel_restores_previous_status_and_keeps_line() {
    let t = setup();
    let avail = no_psd();
    let mut e = make_editor_with_line("おはよう");
    e.status_msg = String::from("before");
    e.enter_speaker_style_mode(&t, &avail);
    let original = e.lines[0].clone();
    e.cancel_speaker_style_mode();
    assert_eq!(e.mode, Mode::Normal);
    assert_eq!(e.status_msg, "before");
    assert_eq!(e.lines[0], original);
    assert!(e.speaker_style.is_none());
}

#[test]
fn style_focus_moves_within_styles_and_clamps() {
    let t = setup();
    let avail = no_psd();
    let mut e = make_editor_with_line("おはよう");
    e.enter_speaker_style_mode(&t, &avail);
    e.speaker_style_focus(SpeakerStyleFocus::Style);
    let preview = e.speaker_style_adjust_selection(&t, &avail, 5).expect("the style changed");
    assert_eq!(preview, "[あまあま]おはよう");
    assert_eq!(e.speaker_style.as_ref().unwrap().style_index, 1);
    assert!(e.speaker_style_adjust_selection(&t, &avail, 1).is_none());
}

#[test]
fn preview_sets_status_and_answers_line_to_play() {
    let t = setup();
    let avail = no_psd();
    let mut e = make_editor_with_line("[四国めたん]こんにちは");
    e.enter_speaker_style_mode(&t, &avail);
    let line = e.speaker_style_selected_preview_line(&t, &avail).expect("a preview line");
    let synth = e.preview_speaker_style_selection(&t, &avail, &line);
    assert_eq!(synth, Some("[四国めたん]こんにちは".to_string()));
    assert_eq!(e.status_msg, "[preview] [四国めたん][ノーマル]こんにちは");
}

#[test]
fn speakers_with_psd_come_first_and_are_marked() {
    let t = setup();
    let avail = PsdAvailability::set_loaded_psd_file_names(vec!["四国めたん.psd".to_string()]);
    let items = speaker_style_speaker_items(&t, &avail);
    assert_eq!(items, vec!["四国めたん [M]".to_string(), "ずんだもん".to_string()]);
}
