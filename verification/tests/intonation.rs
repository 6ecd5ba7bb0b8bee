use voicevox_playground_tui::editor::{Editor, Mode};
use voicevox_playground_tui::intonation::{
    click_target, intonation_key, IntonationAction, IntonationEntry, IntonationKey,
    IntonationSession,
};
use voicevox_playground_tui::keys::KeyCode;
use voicevox_playground_tui::speakers::{Speaker, SpeakerStyle, SpeakerTable};

#[derive(Clone, Debug, PartialEq)]
struct Inton {
    pitches: Vec<f64>,
}

fn style(name: &str, id: u32) -> SpeakerStyle {
    SpeakerStyle { name: name.to_string(), id }
}

/// ずんだもん: ノーマル(3), あまあま(1); 四国めたん: ノーマル(2).
fn setup() -> SpeakerTable {
    SpeakerTable::from_speakers(
        vec![
            Speaker { name: "ずんだもん".to_string(), styles: vec![style("ノーマル", 3), style("あまあま", 1)] },
            Speaker { name: "四国めたん".to_string(), styles: vec![style("ノーマル", 2)] },
        ],
        String::new(),
    )
}

/// An editor on these lines with the cursor on the first one.
fn editor(lines: &[&str]) -> Editor<Inton> {
    let mut e = Editor::new(lines.iter().map(|s| s.to_string()).collect());
    e.cursor = 0;
    e.status_msg = String::new();
    e
}

#[test]
fn intonation_entry_fetches_query_for_single_voice_line() {
    let t = setup();
    let mut e = editor(&["[四国めたん]こんにちは"]);
    e.pending_d = true;

    let entry = e.begin_intonation_mode(&t);

    assert!(!e.pending_d);
    match entry {
        IntonationEntry::FetchQuery { text, speaker_id } => {
            assert_eq!(text, "こんにちは");
            assert_eq!(speaker_id, 2);
        }
        _ => panic!("expected a query fetch"),
    }
    assert_eq!(e.status_msg, "[audio_query 取得中...]");
    assert_eq!(e.mode, Mode::Normal);
}

#[test]
fn intonation_entry_refuses_mixed_voices() {
    let t = setup();
    let mut e = editor(&["ずんだもん喋る[四国めたん]めたん喋る"]);

    assert!(matches!(e.begin_intonation_mode(&t), IntonationEntry::Stay));
    assert_eq!(
        e.status_msg,
        "[intonation] 複数の話者/スタイルが含まれる行はイントネーション編集できません"
    );
}

#[test]
fn intonation_entry_skips_blank_line_and_reuses_saved_data() {
    let t = setup();
    let mut e = editor(&["   "]);
    assert!(matches!(e.begin_intonation_mode(&t), IntonationEntry::Stay));
    assert_eq!(e.status_msg, "");

    let mut e = editor(&["こんにちは"]);
    e.line_intonations[0] = Some(Inton { pitches: vec![5.0] });
    assert!(matches!(e.begin_intonation_mode(&t), IntonationEntry::UseSaved));
}

#[test]
fn finish_query_fetch_reports_errors_and_opens_editor() {
    let mut e = editor(&["こんにちは"]);
    assert!(e.finish_query_fetch(Err("timeout".to_string())).is_none());
    assert_eq!(e.status_msg, "[audio_query error] timeout");
    assert_eq!(e.mode, Mode::Normal);

    assert!(e.finish_query_fetch(Ok(0)).is_none());
    assert_eq!(e.status_msg, "[intonation] モーラが取得できなかった");

    let s = e.finish_query_fetch(Ok(5)).unwrap();
    assert_eq!(s.cursor, 0);
    assert_eq!(s.mora_count, 5);
    assert_eq!(e.mode, Mode::Intonation);
    assert_eq!(e.status_msg, "-- INTONATION --");
}

#[test]
fn save_intonation_stores_data_on_cursor_line() {
    let mut e = editor(&["a", "b"]);
    e.cursor = 1;
    e.mode = Mode::Intonation;
    e.save_intonation(Inton { pitches: vec![1.0, 2.0] });

    assert_eq!(e.line_intonations[1], Some(Inton { pitches: vec![1.0, 2.0] }));
    assert_eq!(e.line_intonations[0], None);
    assert_eq!(e.mode, Mode::Normal);
    assert_eq!(e.status_msg, "[♬ intonation saved] line 2");
}

#[test]
fn intonation_keys_depend_on_typed_number() {
    assert_eq!(intonation_key(false, false, KeyCode::Esc), IntonationKey::Confirm);
    assert_eq!(intonation_key(true, false, KeyCode::Esc), IntonationKey::ClearNumber);
    assert_eq!(intonation_key(true, false, KeyCode::Enter), IntonationKey::ConfirmNumber);
    assert_eq!(intonation_key(false, false, KeyCode::Char('c')), IntonationKey::PitchUp(2));
    assert_eq!(intonation_key(false, false, KeyCode::Char('C')), IntonationKey::PitchDown(2));
    assert_eq!(intonation_key(true, false, KeyCode::Char('c')), IntonationKey::Ignore);
    assert_eq!(intonation_key(false, false, KeyCode::Char('h')), IntonationKey::MoveLeft);
    assert_eq!(intonation_key(false, false, KeyCode::Char('i')), IntonationKey::ResetToInitial);
    assert_eq!(intonation_key(true, true, KeyCode::Char('.')), IntonationKey::Ignore);
    assert_eq!(intonation_key(false, false, KeyCode::Char(' ')), IntonationKey::PlayNow);
    assert_eq!(intonation_key(false, false, KeyCode::Backspace), IntonationKey::Ignore);
}

#[test]
fn session_types_a_number_and_confirms_it() {
    let mut s = IntonationSession::new(3);
    assert!(matches!(s.on_key(KeyCode::Char('.')), IntonationAction::Nothing));
    assert_eq!(s.num_buf, "0.");
    assert!(matches!(s.on_key(KeyCode::Char('5')), IntonationAction::Nothing));
    assert!(matches!(s.on_key(KeyCode::Char('.')), IntonationAction::Nothing));
    assert_eq!(s.num_buf, "0.5");
    assert!(matches!(s.on_key(KeyCode::Backspace), IntonationAction::Nothing));
    assert_eq!(s.num_buf, "0.");
    match s.on_key(KeyCode::Enter) {
        IntonationAction::ConfirmNumber { text, mora } => {
            assert_eq!(text, "0.");
            assert_eq!(mora, 0);
        }
        _ => panic!("expected a typed number"),
    }
    assert_eq!(s.num_buf, "");
    assert!(matches!(s.on_key(KeyCode::Enter), IntonationAction::Confirm));
}

#[test]
fn session_selects_mora_by_letter_and_moves_within_bounds() {
    let mut s = IntonationSession::new(3);
    match s.on_key(KeyCode::Char('c')) {
        IntonationAction::AdjustPitch { mora, up } => {
            assert_eq!(mora, 2);
            assert!(up);
        }
        _ => panic!("expected a pitch change"),
    }
    assert_eq!(s.cursor, 2);
    assert!(matches!(s.on_key(KeyCode::Char('z')), IntonationAction::Nothing));
    assert_eq!(s.cursor, 2);
    s.on_key(KeyCode::Right);
    assert_eq!(s.cursor, 2);
    s.on_key(KeyCode::Char('h'));
    assert_eq!(s.cursor, 1);
    match s.on_key(KeyCode::Down) {
        IntonationAction::AdjustPitch { mora, up } => {
            assert_eq!(mora, 1);
            assert!(!up);
        }
        _ => panic!("expected a pitch change"),
    }
    s.on_key(KeyCode::Char('7'));
    assert!(matches!(s.on_key(KeyCode::Esc), IntonationAction::Nothing));
    assert_eq!(s.num_buf, "");
}

#[test]
fn click_target_finds_mora_column_and_row() {
    let xs = [10u16, 14, 18];
    let ws = [4u16, 4, 4];
    assert_eq!(click_target(15, 7, 10, 5, 10, &xs, &ws, 3), Some((1, 2)));
    assert_eq!(click_target(15, 4, 10, 5, 10, &xs, &ws, 3), None);
    assert_eq!(click_target(15, 15, 10, 5, 10, &xs, &ws, 3), None);
    assert_eq!(click_target(22, 7, 10, 5, 10, &xs, &ws, 3), None);
    assert_eq!(click_target(19, 7, 10, 5, 10, &xs, &ws, 2), None);
    assert_eq!(click_target(15, 7, 10, 5, 0, &xs, &ws, 3), None);

    let mut s = IntonationSession::new(3);
    s.on_key(KeyCode::Char('4'));
    assert_eq!(s.on_click(19, 5, 10, 5, 10, &xs, &ws), Some((2, 0)));
    assert_eq!(s.cursor, 2);
    assert_eq!(s.num_buf, "");
}
