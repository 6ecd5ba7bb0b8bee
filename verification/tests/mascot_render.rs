use voicevox_playground_tui::config::mascot_log_path;
use voicevox_playground_tui::http::{read_mascot_response, MascotResponseError};
use voicevox_playground_tui::mascot::{
    change_character_error_indicates_vpt_ensemble_active, mascot_char_name_for_line,
    mascot_psd_list_from_listing, mascot_psd_list_from_meta, matching_skin_path, no_matching_skin_message,
    no_matching_skin_message_for_list, normalize_mascot_lookup_text, sync_playback,
    vpt_ensemble_character_names, wav_duration_ms, CharacterChange, EnsembleMode, MascotPsdEntry,
    MascotPsdList, MascotPsdMeta, MascotSession, PsdAvailability, StartupEnsemble,
    unresolved_psd_list, FALLBACK_DURATION_MS,
};
use voicevox_playground_tui::overlay::{OverlayState, SyncIds};
use voicevox_playground_tui::request_log::{format_mascot_request, host_header, sync_request_result_log};
use voicevox_playground_tui::speakers::{Speaker, SpeakerStyle, SpeakerTable};

fn style(name: &str, id: u32) -> SpeakerStyle {
    SpeakerStyle { name: name.to_string(), id }
}

/// ずんだもん: ノーマル(3), あまあま(1); 四国めたん: ノーマル(2).
fn setup() -> SpeakerTable {
    SpeakerTable::from_speakers(
        vec![
            Speaker { name: "ずんだもん".to_string(), styles: vec![style("ノーマル", 3), style("あまあま", 1)] },
            Speaker { name: "四国めたん".to_string(), styles: vec![style("ノーマル", 2)] },
        ],
        String::new(),
    )
}

fn psds(names: &[&str]) -> PsdAvailability {
    PsdAvailability::set_loaded_psd_file_names(names.iter().map(|s| s.to_string()).collect())
}

fn pcm_wav(byte_rate: u32, data_len: u32) -> Vec<u8> {
    let mut wav = vec![0u8; 44];
    wav[0..4].copy_from_slice(b"RIFF");
    wav[8..12].copy_from_slice(b"WAVE");
    wav[28..32].copy_from_slice(&byte_rate.to_le_bytes());
    wav[40..44].copy_from_slice(&data_len.to_le_bytes());
    wav
}

#[test]
fn data_mascot_char_name_for_plain_line_uses_default_character() {
    let t = setup();
    assert_eq!(mascot_char_name_for_line(&t, "こんにちは"), Some("ずんだもん".to_string()));
}

#[test]
fn data_mascot_char_name_for_mixed_characters_returns_none() {
    let t = setup();
    assert_eq!(mascot_char_name_for_line(&t, "ずんだもん[四国めたん]めたん"), None);
}

#[test]
fn data_wav_duration_ms_reads_pcm_length() {
    assert_eq!(wav_duration_ms(&pcm_wav(16_000, 1_600)), Some(100));
}

#[test]
fn data_mascot_char_name_for_explicit_character_tag_uses_tagged_character() {
    let t = setup();
    assert_eq!(mascot_char_name_for_line(&t, "[四国めたん]こんにちは"), Some("四国めたん".to_string()));
}

#[test]
fn speaker_has_psd_matches_normalized_filename_text() {
    let avail = psds(&["assets\\ずんだもん-立ち絵.PSD", "White_CUL.psd"]);
    assert!(avail.speaker_has_psd("ずんだもん"));
    assert!(avail.speaker_has_psd("WhiteCUL"));
    assert!(!avail.speaker_has_psd("四国めたん"));
}

#[test]
fn mascot_log_path_uses_app_logs_dir() {
    let history_dir = "/tmp/vpt-data/voicevox-playground-tui";
    assert_eq!(mascot_log_path(history_dir), format!("{history_dir}/logs/request.log"));
}

#[test]
fn mascot_render_mascot_char_name_for_plain_line_uses_default_character() {
    let t = setup();
    assert_eq!(mascot_char_name_for_line(&t, "こんにちは"), Some("ずんだもん".to_string()));
}

#[test]
fn mascot_render_mascot_char_name_for_mixed_characters_returns_none() {
    let t = setup();
    assert_eq!(mascot_char_name_for_line(&t, "ずんだもん[四国めたん]めたん"), None);
}

#[test]
fn mascot_render_wav_duration_ms_reads_pcm_length() {
    assert_eq!(wav_duration_ms(&pcm_wav(16_000, 1_600)), Some(100));
}

#[test]
fn mascot_render_mascot_char_name_for_explicit_character_tag_uses_tagged_character() {
    let t = setup();
    assert_eq!(mascot_char_name_for_line(&t, "[四国めたん]こんにちは"), Some("四国めたん".to_string()));
}

#[test]
fn matching_skin_path_selects_a_matching_png() {
    let entries = vec![
        MascotPsdEntry {
            psd_label: "characters/ずんだもん-front.psd".to_string(),
            png_path: Some("/tmp/first.png".to_string()),
        },
        MascotPsdEntry {
            psd_label: "characters/ずんだもん-back.psd".to_string(),
            png_path: Some("/tmp/second.png".to_string()),
        },
        MascotPsdEntry {
            psd_label: "characters/四国めたん.psd".to_string(),
            png_path: Some("/tmp/metan.png".to_string()),
        },
    ];
    for pick in [0usize, 1, 7, 12345] {
        let selected = matching_skin_path("ずんだもん", &entries, pick);
        assert!(matches!(
            selected.as_deref(),
            Some(path) if path == "/tmp/first.png" || path == "/tmp/second.png"
        ));
    }
    assert_eq!(matching_skin_path("ずんだもん", &entries, 1).as_deref(), Some("/tmp/second.png"));
    assert_eq!(matching_skin_path("  ", &entries, 0), None);
    assert_eq!(matching_skin_path("春日部つむぎ", &entries, 0), None);
}

#[test]
fn no_matching_skin_message_includes_speaker_and_psd_list() {
    let message = no_matching_skin_message(
        "春日部つむぎ",
        &[
            MascotPsdEntry {
                psd_label: "characters/ずんだもん.psd".to_string(),
                png_path: Some("/tmp/zundamon.png".to_string()),
            },
            MascotPsdEntry {
                psd_label: "characters/四国めたん.psd".to_string(),
                png_path: Some("/tmp/metan.png".to_string()),
            },
        ],
    );
    assert!(message.contains("speaker:春日部つむぎ"));
    assert!(message.contains("characters/ずんだもん.psd"));
    assert!(message.contains("characters/四国めたん.psd"));
    assert_eq!(
        message,
        "hitしませんでした。speaker:春日部つむぎ psdのlist:characters/ずんだもん.psd, characters/四国めたん.psd"
    );
}

#[test]
fn no_matching_skin_message_for_empty_list_gives_reason() {
    let list = MascotPsdList { entries: Vec::new(), load_reason: None };
    assert_eq!(
        no_matching_skin_message_for_list("x", &list),
        "hitしませんでした。speaker:x psdのlist:(psd list is empty)"
    );
    let list = MascotPsdList { entries: Vec::new(), load_reason: Some("gone".to_string()) };
    assert_eq!(no_matching_skin_message_for_list("x", &list), "hitしませんでした。speaker:x psdのlist:(gone)");
}

#[test]
fn read_mascot_response_returns_error_on_unexpected_eof_while_reading_headers() {
    let response = b"HTTP/1.1 200 OK\r\nContent-Length: 0\r\n";
    let result = read_mascot_response(response, "/timeline");
    assert!(result.is_err());
    assert_eq!(result.unwrap_err().message(), "unexpected EOF while reading HTTP headers");
}

#[test]
fn read_mascot_response_accepts_success_with_body() {
    let response = b"HTTP/1.1 204 No Content\r\ncontent-length: 2\r\n\r\nok";
    assert_eq!(read_mascot_response(response, "/show"), Ok(()));
}

#[test]
fn read_mascot_response_reports_status_and_trimmed_body() {
    let response = b"HTTP/1.1 409 Conflict\r\nContent-Length: 7\r\n\r\n busy \n";
    let err = read_mascot_response(response, "/timeline").unwrap_err();
    assert_eq!(
        err,
        MascotResponseError::Status { path: "/timeline".to_string(), code: 409, body: "busy".to_string() }
    );
    assert_eq!(err.message(), "mascot-render-server request /timeline failed with HTTP 409: busy");
}

#[test]
fn read_mascot_response_errors() {
    assert_eq!(read_mascot_response(b"", "/x"), Err(MascotResponseError::EmptyResponse));
    assert_eq!(read_mascot_response(b"HTTP/1.1\r\n\r\n", "/x"), Err(MascotResponseError::MissingStatusCode));
    assert_eq!(read_mascot_response(b"HTTP/1.1 abc\r\n\r\n", "/x"), Err(MascotResponseError::InvalidStatusCode));
    assert_eq!(
        read_mascot_response(b"HTTP/1.1 200 OK\r\nContent-Length: x\r\n\r\n", "/x"),
        Err(MascotResponseError::InvalidContentLength)
    );
    assert_eq!(
        read_mascot_response(b"HTTP/1.1 200 OK\r\nContent-Length: 5\r\n\r\nab", "/x"),
        Err(MascotResponseError::ReadBody)
    );
    assert_eq!(read_mascot_response(b"HTTP/1.1 200 OK\n\n", "/x"), Ok(()));
    assert_eq!(read_mascot_response(&[0xff, 0xfe, b'\n'], "/x"), Err(MascotResponseError::ReadStatusLine));
}

#[test]
fn vpt_ensemble_character_names_use_lines_with_text_in_order() {
    let t = setup();
    let avail = psds(&["ずんだもん.psd", "四国めたん.psd"]);
    let lines = vec![
        "[四国めたん]こんにちは".to_string(),
        "[ずんだもん]".to_string(),
        "ずんだもん本文".to_string(),
        "[四国めたん]もう一度".to_string(),
    ];
    assert_eq!(
        vpt_ensemble_character_names(Some(&t), &avail, &lines),
        vec!["四国めたん".to_string(), "ずんだもん".to_string()]
    );
}

#[test]
fn vpt_ensemble_character_names_without_table_is_empty() {
    let avail = psds(&["ずんだもん.psd"]);
    assert!(vpt_ensemble_character_names(None, &avail, &["x".to_string()]).is_empty());
}

#[test]
fn wav_duration_rejects_bad_headers_and_rounds_up() {
    assert_eq!(wav_duration_ms(&[0u8; 10]), None);
    let mut not_riff = pcm_wav(16_000, 1_600);
    not_riff[0] = b'X';
    assert_eq!(wav_duration_ms(&not_riff), None);
    assert_eq!(wav_duration_ms(&pcm_wav(0, 1_600)), None);
    assert_eq!(wav_duration_ms(&pcm_wav(16_000, 16)), Some(100));
    assert_eq!(wav_duration_ms(&pcm_wav(3, 10)), Some(3334));
}

#[test]
fn normalize_lookup_text_drops_separators_extension_and_case() {
    assert_eq!(normalize_mascot_lookup_text(" White_CUL.psd "), "whitecul");
    assert_eq!(normalize_mascot_lookup_text("a.b.PsD"), "ab");
    assert_eq!(normalize_mascot_lookup_text("x.png"), "xpng");
}

#[test]
fn change_character_error_is_recognized_only_with_both_markers() {
    let both = Err("HTTP 409: ensemble_mode=Vpt; cannot change character while ensemble mode is active".to_string());
    assert!(change_character_error_indicates_vpt_ensemble_active(&both));
    assert!(!change_character_error_indicates_vpt_ensemble_active(&Err("ensemble_mode=Vpt".to_string())));
    assert!(!change_character_error_indicates_vpt_ensemble_active(&Ok(())));
}

#[test]
fn favorite_startup_restores_single_character_once() {
    let mut s = MascotSession::new();
    let names = vec!["四国めたん".to_string()];
    assert_eq!(s.begin_vpt_ensemble_startup(EnsembleMode::Favorite, &names), StartupEnsemble::Post);
    assert!(!s.vpt_ensemble_session_active());
    s.finish_vpt_ensemble_startup(EnsembleMode::Favorite);
    assert!(s.vpt_ensemble_session_active());
    assert!(s.take_restore_single_character_on_exit());
    assert!(!s.take_restore_single_character_on_exit());
    assert!(!s.vpt_ensemble_session_active());
}

#[test]
fn startup_steps_by_mode() {
    let mut s = MascotSession::new();
    assert_eq!(s.begin_vpt_ensemble_startup(EnsembleMode::SingleCharacter, &vec!["a".to_string()]), StartupEnsemble::Skip);
    assert_eq!(s.begin_vpt_ensemble_startup(EnsembleMode::Vpt, &Vec::new()), StartupEnsemble::NoCharacters);
    assert!(s.vpt_ensemble_session_active());
    s.sync_vpt_ensemble_session_from_server_mode(EnsembleMode::Favorite);
    assert!(!s.vpt_ensemble_session_active());
}

#[test]
fn character_change_steps() {
    let t = setup();
    let avail = psds(&["ずんだもん.psd"]);
    let mut overlay = OverlayState::new();
    let mut s = MascotSession::new();
    assert_eq!(s.begin_character_change(&mut overlay, &avail, None), CharacterChange::SkipNoCharacter);
    assert_eq!(s.begin_character_change(&mut overlay, &avail, Some("四国めたん")), CharacterChange::SkipNoPsd);
    assert_eq!(
        s.begin_character_change(&mut overlay, &avail, Some("ずんだもん")),
        CharacterChange::Post("ずんだもん".to_string())
    );
    overlay.set_blocking_overlay_message("failed".to_string());
    let refused = Err("ensemble_mode=Vpt: cannot change character while ensemble mode is active".to_string());
    assert!(s.finish_character_change(&mut overlay, &refused));
    assert!(s.vpt_ensemble_session_active());
    assert!(overlay.message.is_none());
    assert_eq!(s.begin_character_change(&mut overlay, &avail, Some("ずんだもん")), CharacterChange::SkipEnsembleActive);
    let mut fresh = MascotSession::new();
    assert!(!fresh.finish_character_change(&mut overlay, &Err("boom".to_string())));
    assert!(fresh.finish_character_change(&mut overlay, &Ok(())));
    let _ = t;
}

#[test]
fn sync_playback_plans_character_and_duration() {
    let t = setup();
    let overlay = OverlayState::new();
    let session = MascotSession::new();
    let mut ids = SyncIds::new();
    let plan = sync_playback(&t, "[四国めたん]やあ", &pcm_wav(16_000, 32_000), &overlay, &session, &mut ids)
        .expect("a sync");
    assert_eq!(plan.sync_id, 1);
    assert_eq!(plan.duration_ms, 2000);
    assert_eq!(plan.char_name.as_deref(), Some("四国めたん"));
    let plan = sync_playback(&t, "やあ", &[1u8, 2, 3], &overlay, &session, &mut ids).expect("a sync");
    assert_eq!(plan.sync_id, 2);
    assert_eq!(plan.duration_ms, FALLBACK_DURATION_MS);
    assert!(sync_playback(&t, "  ", &[1u8], &overlay, &session, &mut ids).is_none());
    assert!(sync_playback(&t, "x", &[], &overlay, &session, &mut ids).is_none());
    let mut busy = OverlayState::new();
    busy.set_startup_in_progress(true);
    assert!(sync_playback(&t, "x", &[1u8], &busy, &session, &mut ids).is_none());
    assert_eq!(ids.next, 3);
}

#[test]
fn psd_list_from_meta_sorts_by_label_and_keeps_existing_pngs() {
    let metas = vec![
        MascotPsdMeta {
            file_name: "四国めたん.psd".to_string(),
            path: Some("characters/四国めたん.psd".to_string()),
            rendered_png_path: Some("/tmp/metan.png".to_string()),
            rendered_png_exists: false,
        },
        MascotPsdMeta {
            file_name: "ずんだもん-front.psd".to_string(),
            path: Some("characters/ずんだもん-front.psd".to_string()),
            rendered_png_path: Some("/tmp/zundamon.png".to_string()),
            rendered_png_exists: true,
        },
        MascotPsdMeta {
            file_name: "a.psd".to_string(),
            path: None,
            rendered_png_path: Some("/tmp/a.jpg".to_string()),
            rendered_png_exists: true,
        },
    ];
    let list = mascot_psd_list_from_meta("/cache", &metas);
    let labels: Vec<&str> = list.entries.iter().map(|e| e.psd_label.as_str()).collect();
    assert_eq!(labels, vec!["a.psd", "characters/ずんだもん-front.psd", "characters/四国めたん.psd"]);
    assert_eq!(list.entries[0].png_path, None);
    assert_eq!(list.entries[1].png_path.as_deref(), Some("/tmp/zundamon.png"));
    assert_eq!(list.entries[2].png_path, None);
    assert_eq!(list.load_reason, None);
    let empty = mascot_psd_list_from_meta("/cache", &[]);
    assert_eq!(empty.load_reason.as_deref(), Some("no valid psd-meta.json entries were found under /cache"));
}

#[test]
fn mascot_psd_list_keeps_order_of_equal_labels() {
    let meta = |label: &str, png: &str| MascotPsdMeta {
        file_name: label.to_string(),
        path: None,
        rendered_png_path: Some(png.to_string()),
        rendered_png_exists: true,
    };
    let metas = vec![meta("b.psd", "/1.png"), meta("a.psd", "/2.png"), meta("b.psd", "/3.png"), meta("a.psd", "/4.png")];
    let list = mascot_psd_list_from_meta("/cache", &metas);
    let pngs: Vec<&str> = list.entries.iter().map(|e| e.png_path.as_deref().unwrap()).collect();
    assert_eq!(pngs, vec!["/2.png", "/4.png", "/1.png", "/3.png"]);
}

#[test]
fn mascot_psd_list_from_missing_cache_dir_reports_reason() {
    let missing = "/tmp/vpt-missing-cache-1";
    let list = mascot_psd_list_from_listing(missing, Err("No such file or directory (os error 2)".to_string()));
    assert!(list.entries.is_empty());
    assert!(list.load_reason.as_deref().is_some_and(|reason| reason.contains("cache path could not be read")));
    assert!(no_matching_skin_message_for_list("春日部つむぎ", &list).contains(missing));
    assert_eq!(
        list.load_reason.as_deref(),
        Some("cache path could not be read: /tmp/vpt-missing-cache-1 (No such file or directory (os error 2))")
    );
}

#[test]
fn mascot_psd_list_from_listing_sorts_what_was_read() {
    let meta = |label: &str| MascotPsdMeta {
        file_name: label.to_string(),
        path: None,
        rendered_png_path: None,
        rendered_png_exists: false,
    };
    let list = mascot_psd_list_from_listing("/cache", Ok(vec![meta("b.psd"), meta("a.psd")]));
    let labels: Vec<&str> = list.entries.iter().map(|e| e.psd_label.as_str()).collect();
    assert_eq!(labels, vec!["a.psd", "b.psd"]);
    assert_eq!(list.load_reason, None);
    let empty = mascot_psd_list_from_listing("/cache", Ok(Vec::new()));
    assert_eq!(empty.load_reason.as_deref(), Some("no valid psd-meta.json entries were found under /cache"));
}

#[test]
fn unresolved_psd_list_says_so() {
    let list = unresolved_psd_list();
    assert!(list.entries.is_empty());
    assert_eq!(list.load_reason.as_deref(), Some("cache path could not be resolved"));
}

/// The `/change-character` request as the log shows it.
fn change_character_request(name: &str) -> String {
    let pretty = format!("{{\n  \"character_name\": \"{name}\"\n}}");
    let compact_len = format!("{{\"character_name\":\"{name}\"}}").len();
    format_mascot_request("POST", "/change-character", &host_header("127.0.0.1", false, 62152), Some((&pretty, compact_len)))
}

#[test]
fn sync_character_change_sends_current_speaker_as_character_name() {
    let mut session = MascotSession::new();
    let mut overlay = OverlayState::new();
    let change = session.begin_character_change(&mut overlay, &psds(&["四国めたん.psd"]), Some("四国めたん"));
    assert_eq!(change, CharacterChange::Post("四国めたん".to_string()));
    let request = change_character_request("四国めたん");
    assert!(request.contains("POST /change-character HTTP/1.1"));
    assert!(request.contains(r#""character_name": "四国めたん""#));
    assert!(session.finish_character_change(&mut overlay, &Ok(())));
}

#[test]
fn sync_character_change_posts_change_character_without_ensemble_disable() {
    let session = MascotSession::new();
    let mut overlay = OverlayState::new();
    let change = session.begin_character_change(&mut overlay, &psds(&["四国めたん.psd"]), Some("四国めたん"));
    assert_eq!(change, CharacterChange::Post("四国めたん".to_string()));
    let request = change_character_request("四国めたん");
    assert!(!request.contains("POST /favorite-ensemble/disable HTTP/1.1"));
    assert!(request.contains("POST /change-character HTTP/1.1"));
}

#[test]
fn sync_character_change_skips_post_while_vpt_ensemble_session_is_active() {
    let mut session = MascotSession::new();
    session.sync_vpt_ensemble_session_from_server_mode(EnsembleMode::Vpt);
    assert!(session.vpt_ensemble_session_active());
    let mut overlay = OverlayState::new();
    let change = session.begin_character_change(&mut overlay, &psds(&["四国めたん.psd"]), Some("四国めたん"));
    assert_eq!(change, CharacterChange::SkipEnsembleActive);
}

#[test]
fn sync_character_change_recovers_when_server_reports_vpt_ensemble_active() {
    let mut session = MascotSession::new();
    let mut overlay = OverlayState::new();
    let change = session.begin_character_change(&mut overlay, &psds(&["春日部つむぎ.psd"]), Some("春日部つむぎ"));
    assert_eq!(change, CharacterChange::Post("春日部つむぎ".to_string()));
    let error = "mascot-render-server request failed with HTTP 500: mascot change_character command failed while applying in the UI thread: failed to apply mascot change-character command: requested_character=春日部つむぎ: ensemble_mode=Vpt; cannot change character while ensemble mode is active".to_string();
    overlay.set_blocking_overlay_message("error".to_string());
    let go_on = session.finish_character_change(&mut overlay, &Err(error));
    assert!(go_on);
    assert!(session.vpt_ensemble_session_active());
    assert_eq!(overlay.current_overlay_message(0), None);
}

#[test]
fn sync_character_change_failure_sets_blocking_overlay_and_stops_timeline() {
    let mut session = MascotSession::new();
    let mut overlay = OverlayState::new();
    let change = session.begin_character_change(&mut overlay, &psds(&["四国めたん.psd"]), Some("四国めたん"));
    assert_eq!(change, CharacterChange::Post("四国めたん".to_string()));
    let request = change_character_request("四国めたん");
    let result = Err("change-character failed".to_string());
    let (entry, blocking) =
        sync_request_result_log("2024-01-01 00:00:00", 1, "change-character", "四国めたん へのcharacter変更", 62152, Some(1), Some(1), &request, &result);
    assert!(blocking);
    overlay.set_blocking_overlay_message(entry);
    assert!(!session.finish_character_change(&mut overlay, &result));
    let (message, dismiss_with_enter) = overlay.current_overlay_message(0).unwrap();
    assert!(dismiss_with_enter);
    assert!(message.contains("POST /change-character HTTP/1.1"));
    assert!(message.contains(r#""character_name": "四国めたん""#));
    assert!(message.contains("change-character failed"));
}

#[test]
fn sync_character_change_skips_post_when_speaker_has_no_psd() {
    let session = MascotSession::new();
    let mut overlay = OverlayState::new();
    let change = session.begin_character_change(&mut overlay, &psds(&["ずんだもん.psd"]), Some("四国めたん"));
    assert_eq!(change, CharacterChange::SkipNoPsd);
    assert_eq!(overlay.current_overlay_message(0), None);
}
