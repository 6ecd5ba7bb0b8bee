use voicevox_playground_tui::editor::Editor;
use voicevox_playground_tui::playback::{
    intonation_play_route, playback_status_message, startup_voice_summary, text_play_route, voice_render_summary,
    PlayPlan, PlayRoute, PlaybackStatus,
};

fn editor(lines: &[&str]) -> Editor<u32> {
    Editor::new(lines.iter().map(|s| s.to_string()).collect())
}

#[test]
fn play_plan_skips_blank_and_missing_lines() {
    let e = editor(&["a", "  "]);
    assert!(matches!(e.play_plan(1, false), PlayPlan::Nothing));
    assert!(matches!(e.play_plan(9, false), PlayPlan::Nothing));
}

#[test]
fn play_plan_uses_text_without_fold_marks() {
    let mut e = editor(&[" a", "b"]);
    match e.play_plan(0, false) {
        PlayPlan::Text { text, index } => {
            assert_eq!(text, "a");
            assert_eq!(index, 0);
        }
        _ => panic!("a text plan"),
    }
    e.line_intonations[1] = Some(7);
    match e.play_plan(1, true) {
        PlayPlan::Intonation { text, index, pitches_only } => {
            assert_eq!(text, "b");
            assert_eq!(index, 1);
            assert!(pitches_only);
        }
        _ => panic!("an intonation plan"),
    }
}

#[test]
fn playback_status_messages_number_lines_from_one() {
    assert_eq!(playback_status_message(PlaybackStatus::CachedText, 0), "[♪ cached] line 1");
    assert_eq!(playback_status_message(PlaybackStatus::FetchingText, 9), "[fetching...] line 10");
    assert_eq!(playback_status_message(PlaybackStatus::CachedIntonation, 1), "[♬ cached] line 2");
    assert_eq!(playback_status_message(PlaybackStatus::SynthesizingIntonation, 2), "[♬ intonation] line 3");
}

#[test]
fn prefetch_texts_are_nearest_first_without_fold_marks() {
    let mut e = editor(&["a", " b", "c", "d"]);
    e.cursor = 1;
    assert_eq!(e.prefetch_texts(4), vec!["c", "a", "d"]);
    e.folded = true;
    e.cursor = 2;
    assert_eq!(e.prefetch_texts(4), vec!["d", "a", ""]);
}

#[test]
fn start_startup_voice_overlay_uses_current_line_summary() {
    assert_eq!(startup_voice_summary(0, "ずんだもん"), "[startup] line 1 render待ち / play予約: ずんだもん");
}

#[test]
fn fetch_and_play_sends_voice_render_summary_for_uncached_line() {
    let e = editor(&["ずんだもん"]);
    match e.play_plan(0, false) {
        PlayPlan::Text { text, index } => {
            assert_eq!(voice_render_summary(index, &text), "line 1 render待ち / play予約: ずんだもん");
        }
        _ => panic!("expected a text play"),
    }
}

#[test]
fn text_play_route_plays_cached_text_or_fetches_it() {
    let (route, status) = text_play_route(0, "やあ", true);
    assert!(matches!(route, PlayRoute::Cached { clear_voice_render: true }));
    assert_eq!(status, "[♪ cached] line 1");
    let (route, status) = text_play_route(2, "やあ", false);
    match route {
        PlayRoute::FetchText { summary } => assert_eq!(summary, "line 3 render待ち / play予約: やあ"),
        _ => panic!("expected a fetch"),
    }
    assert_eq!(status, "[fetching...] line 3");
}

#[test]
fn intonation_play_route_plays_cached_synthesis_or_synthesizes() {
    let (route, status) = intonation_play_route(1, true);
    assert!(matches!(route, PlayRoute::Cached { clear_voice_render: false }));
    assert_eq!(status, "[♬ cached] line 2");
    let (route, status) = intonation_play_route(1, false);
    assert!(matches!(route, PlayRoute::SynthesizeQuery));
    assert_eq!(status, "[♬ intonation] line 2");
}
