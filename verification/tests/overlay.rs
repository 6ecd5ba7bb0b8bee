use voicevox_playground_tui::overlay::{OverlayState, RuntimeNotice, SyncIds, VoiceRenderOverlay};

#[test]
fn voice_render_overlay_clear_if_current_keeps_newer_message() {
    let mut overlay = VoiceRenderOverlay::default();
    let first = overlay.start("first".to_string());
    let second = overlay.start("second".to_string());

    overlay.clear_if_current(first);
    assert_eq!(overlay.current_message(), Some("second".to_string()));

    overlay.clear_if_current(second);
    assert_eq!(overlay.current_message(), None);
}

#[test]
fn voice_render_overlay_clear_removes_message() {
    let mut overlay = VoiceRenderOverlay::default();
    let g = overlay.start("x".to_string());
    overlay.clear();
    assert_eq!(overlay.current_message(), None);
    let h = overlay.start("y".to_string());
    assert!(h > g + 1);
}

fn check_blocking_overlay_message_stays_visible_until_dismissed() {
    let mut s = OverlayState::new();
    s.set_blocking_overlay_message("request failed".to_string());
    assert_eq!(s.current_overlay_message(0), Some(("request failed".to_string(), true)));
    assert!(s.has_blocking_overlay_message());
    s.dismiss_blocking_overlay_message();
    assert_eq!(s.current_overlay_message(0), None);
    assert!(!s.has_blocking_overlay_message());
}

#[test]
fn logging_blocking_overlay_message_stays_visible_until_dismissed() {
    check_blocking_overlay_message_stays_visible_until_dismissed();
}

#[test]
fn mascot_render_blocking_overlay_message_stays_visible_until_dismissed() {
    check_blocking_overlay_message_stays_visible_until_dismissed();
}

#[test]
fn startup_overlay_message_stays_visible_until_cleared() {
    let mut s = OverlayState::new();
    s.set_startup_overlay_message("checking mascot-render-server".to_string());
    assert_eq!(s.current_startup_overlay_message(), Some("checking mascot-render-server".to_string()));
    s.clear_startup_overlay_message();
    assert_eq!(s.current_startup_overlay_message(), None);
}

#[test]
fn startup_in_progress_flag_round_trips() {
    let mut s = OverlayState::new();
    assert!(!s.is_startup_in_progress());
    s.set_startup_in_progress(true);
    assert!(s.is_startup_in_progress());
}

fn check_non_blocking_overlay_does_not_replace_blocking_overlay() {
    let mut s = OverlayState::new();
    s.set_blocking_overlay_message("request failed".to_string());
    s.set_overlay_message("temporary info".to_string(), 0);
    assert_eq!(s.current_overlay_message(0), Some(("request failed".to_string(), true)));
    s.dismiss_blocking_overlay_message();
    assert_eq!(s.current_overlay_message(0), None);
}

#[test]
fn logging_non_blocking_overlay_does_not_replace_blocking_overlay() {
    check_non_blocking_overlay_does_not_replace_blocking_overlay();
}

#[test]
fn mascot_render_non_blocking_overlay_does_not_replace_blocking_overlay() {
    check_non_blocking_overlay_does_not_replace_blocking_overlay();
}

fn check_clear_overlay_message_keeps_blocking_overlay_until_dismissed() {
    let mut s = OverlayState::new();
    s.set_blocking_overlay_message("request failed".to_string());
    s.clear_overlay_message();
    assert_eq!(s.current_overlay_message(0), Some(("request failed".to_string(), true)));
    s.dismiss_blocking_overlay_message();
    assert_eq!(s.current_overlay_message(0), None);
}

#[test]
fn logging_clear_overlay_message_keeps_blocking_overlay_until_dismissed() {
    check_clear_overlay_message_keeps_blocking_overlay_until_dismissed();
}

#[test]
fn mascot_render_clear_overlay_message_keeps_blocking_overlay_until_dismissed() {
    check_clear_overlay_message_keeps_blocking_overlay_until_dismissed();
}

#[test]
fn timed_overlay_expires_after_five_seconds() {
    let mut s = OverlayState::new();
    s.set_overlay_message("info".to_string(), 1_000);
    assert_eq!(s.current_overlay_message(5_999), Some(("info".to_string(), false)));
    assert_eq!(s.current_overlay_message(6_000), None);
    assert!(s.message.is_none());
}

#[test]
fn runtime_notice_returns_latest_message() {
    let mut n = RuntimeNotice::new();
    n.set_runtime_notice("hello".to_string(), 10);
    assert_eq!(n.current_runtime_notice(10).as_deref(), Some("hello"));
    assert_eq!(n.current_runtime_notice(5_010), None);
}

#[test]
fn next_mascot_sync_id_is_monotonic() {
    let mut ids = SyncIds::new();
    let first = ids.next_mascot_sync_id();
    let second = ids.next_mascot_sync_id();
    assert_eq!(first, 1);
    assert_eq!(second, first + 1);
}

#[test]
fn later_voice_render_start_is_newer_and_shown() {
    let mut overlay = VoiceRenderOverlay::default();
    let g1 = overlay.start("first".to_string());
    overlay.clear();
    overlay.clear_if_current(g1);
    let g2 = overlay.start("second".to_string());
    assert!(g2 > g1);
    assert_eq!(overlay.current_message(), Some("second".to_string()));
}
