use voicevox_playground_tui::fetch::{
    intonation_cache_key_text, is_intonation_cache_key, pitches_only_cache_key_text, pitches_only_key_parts,
    voice_render_message, FetchAction, FetchWorker, RequestFacts,
};
use voicevox_playground_tui::overlay::VoiceRenderOverlay;
use voicevox_playground_tui::speakers::{Speaker, SpeakerStyle, SpeakerTable};

fn style(name: &str, id: u32) -> SpeakerStyle {
    SpeakerStyle { name: name.to_string(), id }
}

fn setup() -> SpeakerTable {
    SpeakerTable::from_speakers(
        vec![
            Speaker { name: "ずんだもん".to_string(), styles: vec![style("ノーマル", 3), style("あまあま", 1)] },
            Speaker { name: "四国めたん".to_string(), styles: vec![style("ノーマル", 2)] },
        ],
        String::new(),
    )
}

fn play() -> RequestFacts {
    RequestFacts { play_after: true, text_blank: false, has_cache_key: true, cached: false }
}

fn prefetch() -> RequestFacts {
    RequestFacts { play_after: false, text_blank: false, has_cache_key: true, cached: false }
}

#[test]
fn prefetch_does_not_abort_a_running_play_fetch() {
    let mut w = FetchWorker::new();
    let mut overlay = VoiceRenderOverlay::default();
    let (abort, action) = w.on_request(&mut overlay, false, play(), "rendering".to_string());
    assert!(!abort);
    assert_eq!(action, FetchAction::Synthesize { generation: 1, voice_render_generation: Some(1) });
    assert_eq!(overlay.current_message(), Some("rendering".to_string()));
    let (abort, action) = w.on_request(&mut overlay, false, prefetch(), String::new());
    assert!(!abort);
    assert_eq!(action, FetchAction::Skip);
    assert!(w.is_fetching);
}

#[test]
fn play_request_aborts_running_fetch() {
    let mut w = FetchWorker::new();
    let mut overlay = VoiceRenderOverlay::default();
    w.on_request(&mut overlay, false, prefetch(), String::new());
    let (abort, action) = w.on_request(&mut overlay, false, play(), "m".to_string());
    assert!(abort);
    assert!(matches!(action, FetchAction::Synthesize { generation: 2, .. }));
    assert!(w.current_is_play);
}

#[test]
fn cached_play_plays_at_once_and_cached_prefetch_is_skipped() {
    let mut w = FetchWorker::new();
    let mut overlay = VoiceRenderOverlay::default();
    let cached_play = RequestFacts { cached: true, ..play() };
    let cached_prefetch = RequestFacts { cached: true, ..prefetch() };
    assert_eq!(w.on_request(&mut overlay, false, cached_play, String::new()).1, FetchAction::PlayCached);
    assert_eq!(w.on_request(&mut overlay, false, cached_prefetch, String::new()).1, FetchAction::Skip);
    assert!(!w.is_fetching);
}

#[test]
fn blank_or_keyless_requests_are_skipped() {
    let mut w = FetchWorker::new();
    let mut overlay = VoiceRenderOverlay::default();
    let blank = RequestFacts { text_blank: true, ..play() };
    let keyless = RequestFacts { has_cache_key: false, ..play() };
    assert_eq!(w.on_request(&mut overlay, false, blank, String::new()).1, FetchAction::Skip);
    assert_eq!(w.on_request(&mut overlay, false, keyless, String::new()).1, FetchAction::Skip);
}

#[test]
fn only_the_latest_task_clears_fetching() {
    let mut w = FetchWorker::new();
    let mut overlay = VoiceRenderOverlay::default();
    w.on_request(&mut overlay, false, play(), "first".to_string());
    w.on_request(&mut overlay, false, play(), "second".to_string());
    w.on_task_done(&mut overlay, 1, Some(1));
    assert!(w.is_fetching);
    assert_eq!(overlay.current_message(), Some("second".to_string()));
    w.on_task_done(&mut overlay, 2, Some(3));
    assert!(!w.is_fetching);
    assert_eq!(overlay.current_message(), None);
}

#[test]
fn finished_play_task_lets_prefetch_run() {
    let mut w = FetchWorker::new();
    let mut overlay = VoiceRenderOverlay::default();
    w.on_request(&mut overlay, false, play(), "m".to_string());
    let (abort, action) = w.on_request(&mut overlay, true, prefetch(), String::new());
    assert!(!abort);
    assert!(matches!(action, FetchAction::Synthesize { voice_render_generation: None, .. }));
}

#[test]
fn voice_render_message_defaults() {
    assert_eq!(voice_render_message(None), "voice render request中 (play予約済み)");
    assert_eq!(voice_render_message(Some("line 3".to_string())), "line 3");
}

#[test]
fn pitches_only_key_parts_need_one_segment() {
    let t = setup();
    assert_eq!(pitches_only_key_parts(Some(&t), "[四国めたん]やあ"), Some((2, "やあ".to_string())));
    assert_eq!(pitches_only_key_parts(Some(&t), "やあ[四国めたん]ども"), None);
    assert_eq!(pitches_only_key_parts(None, "やあ"), None);
}

#[test]
fn intonation_cache_key_includes_speaker_and_query_json() {
    let query: serde_json::Value = serde_json::from_str(r#"{ "accent_phrases": [] }"#).unwrap();
    let key = intonation_cache_key_text(42, &serde_json::to_string(&query).unwrap());
    assert_eq!(key, r#"intonation:42:{"accent_phrases":[]}"#);
}

#[test]
fn line_cache_key_uses_stable_pitches_only_key_for_loaded_intonation() {
    let t = setup();
    let (id, text) = pitches_only_key_parts(Some(&t), "ずんだもん").unwrap();
    let pitches = vec![5.8];
    let payload = serde_json::to_string(&(id, text, pitches)).unwrap();
    let key = pitches_only_cache_key_text(&payload);
    assert_eq!(key, r#"intonation:pitches:[3,"ずんだもん",[5.8]]"#);
}

#[test]
fn evict_intonation_cache_removes_only_intonation_entries() {
    let mut cache = std::collections::HashMap::new();
    cache.insert(String::from("hello"), vec![1, 2, 3]);
    cache.insert(String::from("intonation:1:{}"), vec![4, 5, 6]);
    cache.retain(|k, _| !is_intonation_cache_key(k));
    assert!(cache.contains_key("hello"));
    assert!(!cache.contains_key("intonation:1:{}"));
    assert!(!is_intonation_cache_key("intonation"));
    assert!(is_intonation_cache_key("intonation:pitches:[]"));
}

#[test]
fn fetch_worker_consistency_check() {
    let w = FetchWorker::new();
    assert!(w.is_consistent());
    let bad = FetchWorker { task: false, current_is_play: true, is_fetching: false, fetch_gen: 0 };
    assert!(!bad.is_consistent());
}

#[test]
fn cached_play_clears_the_voice_render_message() {
    let mut w = FetchWorker::new();
    let mut overlay = VoiceRenderOverlay::default();
    overlay.start("old".to_string());
    let cached_play = RequestFacts { cached: true, ..play() };
    let (abort, action) = w.on_request(&mut overlay, false, cached_play, String::new());
    assert!(!abort);
    assert_eq!(action, FetchAction::PlayCached);
    assert_eq!(overlay.current_message(), None);
}

#[test]
fn play_aborting_a_play_fetch_clears_its_message() {
    let mut w = FetchWorker::new();
    let mut overlay = VoiceRenderOverlay::default();
    let (_, first) = w.on_request(&mut overlay, false, play(), "one".to_string());
    assert!(matches!(first, FetchAction::Synthesize { .. }));
    let blank = RequestFacts { text_blank: true, ..play() };
    let (abort, action) = w.on_request(&mut overlay, false, blank, String::new());
    assert!(abort);
    assert_eq!(action, FetchAction::Skip);
    assert_eq!(overlay.current_message(), None);
}

#[test]
fn finished_task_keeps_a_newer_voice_render_message() {
    let mut w = FetchWorker::new();
    let mut overlay = VoiceRenderOverlay::default();
    let (_, first) = w.on_request(&mut overlay, false, play(), "one".to_string());
    let (generation, voice_gen) = match first {
        FetchAction::Synthesize { generation, voice_render_generation } => (generation, voice_render_generation),
        _ => panic!("expected a synthesis"),
    };
    overlay.start("newer".to_string());
    w.on_task_done(&mut overlay, generation, voice_gen);
    assert!(!w.is_fetching);
    assert_eq!(overlay.current_message(), Some("newer".to_string()));
}
