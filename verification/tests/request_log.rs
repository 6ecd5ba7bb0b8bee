use voicevox_playground_tui::request_log::{
    error_snapshots_due, event_details_with_elapsed, format_mascot_get_wire_request,
    format_mascot_log_message, format_mascot_post_wire_head, format_mascot_request,
    format_mascot_snapshot_response, format_mascot_sync_snapshot_message, host_header,
    indented_lines, join_with, mascot_notice, optional_elapsed_field,
    optional_request_duration_field, pretty_json_body, request_result_log, snapshot_end_details,
    snapshot_endpoints, snapshot_from_response, snapshot_start_details, snapshot_take,
    split_http_response, sync_event_message, sync_log_prefix, sync_request_result_log,
    sync_request_start_message, MascotHttpSnapshot, MascotNotice, MAX_SNAPSHOT_RESPONSE_BYTES,
};

const TS: &str = "2025-01-02 03:04:05+09:00";

fn local_host(port: u16) -> String {
    host_header("127.0.0.1", false, port)
}

/// The entries a snapshot round writes when no endpoint answers.
fn failed_snapshot_round(sync_id: u64, phase: &str, timing: &str, port: u16, error: &str) -> String {
    let host = local_host(port);
    let mut log = Vec::new();
    log.push(sync_event_message(
        TS,
        sync_id,
        phase,
        "snapshot_start",
        &event_details_with_elapsed(None, &snapshot_start_details(timing)),
    ));
    for endpoint in snapshot_endpoints() {
        let request = format_mascot_request("GET", &endpoint, &host, None);
        let snapshot: Result<MascotHttpSnapshot, String> = Err(error.to_string());
        log.push(format_mascot_sync_snapshot_message(
            TS, sync_id, phase, timing, &endpoint, port, &request, 0, None, &snapshot,
        ));
    }
    log.push(sync_event_message(
        TS,
        sync_id,
        phase,
        "snapshot_end",
        &event_details_with_elapsed(None, &snapshot_end_details(timing, 3)),
    ));
    log.join("\n")
}

#[test]
fn requests_format_mascot_request_without_body_omits_json_sections() {
    let request = format_mascot_request("POST", "/show", &local_host(62152), None);

    assert!(request.contains("header:"));
    assert!(request.contains("  POST /show HTTP/1.1"));
    assert!(request.contains("  Host: 127.0.0.1:62152"));
    assert!(request.contains("  Connection: close"));
    assert!(request.contains("  Content-Length: 0"));
    assert!(!request.contains("Content-Type: application/json"));
    assert!(!request.contains("body:"));
}

#[test]
fn mascot_render_format_mascot_request_without_body_omits_json_sections() {
    let request = format_mascot_request("POST", "/show", &local_host(62152), None);

    assert!(request.contains("header:"));
    assert!(request.contains("  POST /show HTTP/1.1"));
    assert!(request.contains("  Host: 127.0.0.1:62152"));
    assert!(request.contains("  Connection: close"));
    assert!(request.contains("  Content-Length: 0"));
    assert!(!request.contains("Content-Type: application/json"));
    assert!(!request.contains("body:"));

    assert_eq!(
        request,
        "header:\n  POST /show HTTP/1.1\n  Host: 127.0.0.1:62152\n  Connection: close\n  Content-Length: 0"
    );
}

#[test]
fn requests_format_mascot_request_uses_brackets_for_ipv6_host_header() {
    let request = format_mascot_request("POST", "/show", &host_header("::1", true, 62152), None);

    assert!(request.contains("  Host: [::1]:62152"));
}

#[test]
fn mascot_render_format_mascot_request_uses_brackets_for_ipv6_host_header() {
    let request = format_mascot_request("POST", "/show", &host_header("::1", true, 62152), None);

    assert!(request.contains("  Host: [::1]:62152"));
    assert_eq!(host_header("::1", true, 62152), "[::1]:62152");
    assert_eq!(host_header("127.0.0.1", false, 80), "127.0.0.1:80");
}

#[test]
fn format_mascot_request_with_body_indents_header_and_body() {
    let body = "{\n  \"character_name\": \"四国めたん\"\n}";
    let request = format_mascot_request("POST", "/change-character", &local_host(62152), Some((body, 33)));

    assert_eq!(
        request,
        "header:\n  POST /change-character HTTP/1.1\n  Host: 127.0.0.1:62152\n  Connection: close\n  Content-Length: 33\n  Content-Type: application/json\nbody:\n  {\n    \"character_name\": \"四国めたん\"\n  }"
    );
}

#[test]
fn logging_format_mascot_log_message_prefixes_timestamp_and_category() {
    let timestamp = chrono::Local::now().format("%Y-%m-%d %H:%M:%S%:z").to_string();
    let message = format_mascot_log_message(&timestamp, "port 62152 に 表示request を送信しました。");

    let (stamp, rest) = message
        .strip_prefix('[')
        .and_then(|message| message.split_once("] [mascot-render] "))
        .unwrap();
    assert!(chrono::DateTime::parse_from_str(stamp, "%Y-%m-%d %H:%M:%S%:z").is_ok());
    assert_eq!(rest, "port 62152 に 表示request を送信しました。");
}

#[test]
fn mascot_render_format_mascot_log_message_prefixes_timestamp_and_category() {
    let timestamp = chrono::Local::now().format("%Y-%m-%d %H:%M:%S%:z").to_string();
    let message = format_mascot_log_message(&timestamp, "port 62152 に 表示request を送信しました。");

    let (stamp, rest) = message
        .strip_prefix('[')
        .and_then(|message| message.split_once("] [mascot-render] "))
        .unwrap();
    assert!(chrono::DateTime::parse_from_str(stamp, "%Y-%m-%d %H:%M:%S%:z").is_ok());
    assert_eq!(rest, "port 62152 に 表示request を送信しました。");

    let message = format_mascot_log_message(TS, "x");

    assert_eq!(message, "[2025-01-02 03:04:05+09:00] [mascot-render] x");
}

#[test]
fn logging_log_mascot_request_result_shows_blocking_overlay_on_error() {
    let request = format_mascot_request("POST", "/timeline", &local_host(62152), None);
    let result = Err("connection refused".to_string());

    let (message, dismiss_with_enter) = request_result_log(TS, "口パク", 62152, &request, &result);

    assert!(dismiss_with_enter);
    assert!(message.contains("port 62152 への 口パクrequest 送信に失敗しました"));
    assert!(message.contains("connection refused"));
    assert!(message.contains("request:"));
    assert!(message.contains("POST /timeline HTTP/1.1"));
}

#[test]
fn log_mascot_request_result_writes_success_log_to_file() {
    let request = format_mascot_request("POST", "/show", &local_host(62152), None);

    let (log, overlay) = request_result_log(TS, "表示", 62152, &request, &Ok(()));

    assert!(!overlay);
    assert!(log.contains("port 62152 に 表示request を送信しました。"));
    assert!(log.contains("request:"));
    assert!(log.contains("POST /show HTTP/1.1"));
}

#[test]
fn log_mascot_sync_request_result_writes_sync_context() {
    let request = format_mascot_request("POST", "/show", &local_host(62152), None);

    let (log, overlay) =
        sync_request_result_log(TS, 42, "show", "表示", 62152, None, None, &request, &Ok(()));

    assert!(!overlay);
    assert!(log.contains("sync_id=42 phase=show"));
    assert!(log.contains("port 62152 に 表示request を送信しました。"));
    assert!(log.contains("POST /show HTTP/1.1"));
}

#[test]
fn sync_request_result_log_reports_failure_with_timing_fields() {
    let (log, overlay) = sync_request_result_log(
        TS,
        3,
        "timeline",
        "口パク",
        62152,
        Some(12),
        Some(40),
        "req",
        &Err("boom".to_string()),
    );

    assert!(overlay);
    assert_eq!(
        log,
        "[2025-01-02 03:04:05+09:00] [mascot-render] sync_id=3 phase=timeline event=request_end elapsed_ms=12 duration_ms=40 status=error port 62152 への 口パクrequest 送信に失敗しました: boom\nrequest:\nreq"
    );
}

#[test]
fn sync_request_start_message_names_port_and_action() {
    let line = sync_request_start_message(TS, 5, "show", "表示", 62152, Some(7));

    assert_eq!(
        line,
        "[2025-01-02 03:04:05+09:00] [mascot-render] sync_id=5 phase=show event=request_start elapsed_ms=7 port 62152 への 表示request 送信を開始します。"
    );
}

#[test]
fn log_mascot_sync_snapshots_logs_fetch_failures_without_stopping() {
    let log = failed_snapshot_round(7, "timeline", "before", 0, "connection refused");

    assert!(log.contains("sync_id=7 phase=timeline"));
    assert!(log.contains("before /status snapshot を port 0 から取得できませんでした"));
    assert!(log.contains("before /placement/anchor-plan snapshot を port 0 から取得できませんでした"));
    assert!(log.contains("GET /status HTTP/1.1"));
    assert!(log.contains("GET /placement/anchor-plan HTTP/1.1"));
}

#[test]
fn playback_snapshots_run_when_snapshot_log_is_enabled() {
    let log = failed_snapshot_round(7, "timeline", "before", 0, "refused");

    assert!(log.contains("sync_id=7 phase=timeline"));
    assert!(log.contains("timing=before"));
    assert!(log.contains("event=snapshot_start"));
}

#[test]
fn playback_error_snapshot_runs_even_when_snapshot_log_is_disabled() {
    assert!(error_snapshots_due(true, false));
    assert!(!error_snapshots_due(false, false));
    assert!(!error_snapshots_due(true, true));

    let log = failed_snapshot_round(7, "timeline", "error", 0, "request failed");
    assert!(log.contains("sync_id=7 phase=timeline"));
    assert!(log.contains("timing=error"));
    assert!(log.contains("event=snapshot_start"));
}

#[test]
fn snapshot_start_lists_endpoints() {
    assert_eq!(snapshot_endpoints(), vec!["/status".to_string(), "/placement/anchor-plan".to_string()]);
    assert_eq!(
        snapshot_start_details("before"),
        "timing=before endpoints=/status,/placement/anchor-plan"
    );
    assert_eq!(snapshot_end_details("after", 12), "timing=after duration_ms=12");
}

#[test]
fn event_details_put_elapsed_first() {
    assert_eq!(event_details_with_elapsed(Some(15), "timing=x"), "elapsed_ms=15 timing=x");
    assert_eq!(event_details_with_elapsed(None, "timing=x"), "timing=x");
    assert_eq!(optional_elapsed_field(Some(9)), " elapsed_ms=9");
    assert_eq!(optional_elapsed_field(None), "");
    assert_eq!(optional_request_duration_field(Some(4)), " duration_ms=4");
}

#[test]
fn sync_event_message_omits_empty_details() {
    assert_eq!(sync_log_prefix(9, "show"), "sync_id=9 phase=show");
    assert_eq!(
        sync_event_message(TS, 9, "show", "done", ""),
        "[2025-01-02 03:04:05+09:00] [mascot-render] sync_id=9 phase=show event=done"
    );
    assert_eq!(
        sync_event_message(TS, 9, "show", "done", "a=1"),
        "[2025-01-02 03:04:05+09:00] [mascot-render] sync_id=9 phase=show event=done a=1"
    );
}

#[test]
fn indented_lines_indents_each_line() {
    assert_eq!(indented_lines("a\nb\r\nc"), "  a\n  b\n  c");
    assert_eq!(indented_lines(""), "");
    assert_eq!(join_with(&vec!["x".to_string(), "y".to_string()], ','), "x,y");
}

#[test]
fn wire_requests_use_crlf() {
    assert_eq!(
        format_mascot_get_wire_request("/status", "127.0.0.1:62152"),
        "GET /status HTTP/1.1\r\nHost: 127.0.0.1:62152\r\nConnection: close\r\nContent-Length: 0\r\n\r\n"
    );
    assert_eq!(
        format_mascot_post_wire_head("/show", "127.0.0.1:1", 12),
        "POST /show HTTP/1.1\r\nHost: 127.0.0.1:1\r\nConnection: close\r\nContent-Length: 12\r\nContent-Type: application/json\r\n\r\n"
    );
}

#[test]
fn split_http_response_takes_status_line_and_body() {
    let (status, body) = split_http_response("HTTP/1.1 200 OK\r\nA: b\r\n\r\n{\"x\":1}");
    assert_eq!(status.as_deref(), Some("HTTP/1.1 200 OK"));
    assert_eq!(body, "{\"x\":1}");

    let (status, body) = split_http_response("HTTP/1.1 404 NF\n\nmissing");
    assert_eq!(status.as_deref(), Some("HTTP/1.1 404 NF"));
    assert_eq!(body, "missing");

    let (status, body) = split_http_response("");
    assert_eq!(status, None);
    assert_eq!(body, "");
}

#[test]
fn pretty_json_body_reformats_json_and_keeps_other_text() {
    assert_eq!(pretty_json_body("  {\"a\":1}  "), "{\n  \"a\": 1\n}");
    assert_eq!(pretty_json_body("  not json "), "not json");
    assert_eq!(pretty_json_body(" \n "), "");
}

#[test]
fn snapshot_from_response_decodes_and_tidies() {
    let s = snapshot_from_response(b"HTTP/1.1 200 OK\r\n\r\n{\"ok\":true}", true, false);
    assert_eq!(s.status_line.as_deref(), Some("HTTP/1.1 200 OK"));
    assert_eq!(s.body, "{\n  \"ok\": true\n}");
    assert!(s.truncated);
    assert!(!s.timed_out_after_partial);

    let text = format_mascot_snapshot_response(&s);
    assert_eq!(
        text,
        "status: HTTP/1.1 200 OK\ntruncated: true (limit_bytes=262144)\nbody:\n  {\n    \"ok\": true\n  }"
    );
}

#[test]
fn snapshot_response_without_status_or_body() {
    let s = MascotHttpSnapshot {
        status_line: None,
        body: "  ".to_string(),
        truncated: false,
        timed_out_after_partial: true,
    };
    assert_eq!(format_mascot_snapshot_response(&s), "status: (unknown)\ntimed_out_after_partial: true");
    let entry = format_mascot_sync_snapshot_message(TS, 1, "p", "after", "/status", 80, "req", 5, Some(2), &Ok(s));
    assert_eq!(
        entry,
        "[2025-01-02 03:04:05+09:00] [mascot-render] sync_id=1 phase=p event=snapshot_endpoint_end elapsed_ms=2 timing=after endpoint=/status duration_ms=5 status=ok after /status snapshot を port 80 から取得しました。\nrequest:\nreq\nresponse:\n  status: (unknown)\n  timed_out_after_partial: true"
    );
}

#[test]
fn snapshot_take_cuts_at_the_limit() {
    assert_eq!(snapshot_take(0, 100), (100, false));
    assert_eq!(snapshot_take(MAX_SNAPSHOT_RESPONSE_BYTES - 10, 100), (10, true));
    assert_eq!(snapshot_take(MAX_SNAPSHOT_RESPONSE_BYTES, 1), (0, true));
}

#[test]
fn mascot_notices_name_the_error() {
    assert_eq!(mascot_notice(MascotNotice::LogWriteFailed, "disk full"), "[mascot-render] ログ書き込みに失敗しました: disk full");
    assert_eq!(
        mascot_notice(MascotNotice::EnsembleStartupSkipped, "mascot startup timeout"),
        "[mascot-render] vpt ensemble 準備をスキップしました: mascot startup timeout"
    );
    assert_eq!(
        mascot_notice(MascotNotice::ExitRestoreFailed, "x"),
        "[mascot-render] 終了時の ensemble mode 復元に失敗しました: x"
    );
}
