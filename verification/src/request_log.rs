//! The text of the mascot request log: how requests, sync events, request
//! results and server snapshots are written down, and how a raw snapshot
//! response is split and tidied before it is logged.

use vstd::prelude::*;

use crate::http::{decode_utf8_lossy, utf8_lossy_text};
use crate::keys::{split_text_lines, text_lines};
use crate::tag::strings_view;
use crate::text::{
    chars_of, decimal, decimal_string, is_blank, is_blank_str, matches_at, push_char, push_str,
    string_from_chars, sub_chars, trim, trim_end, trimmed, trimmed_end,
};

verus! {

// ── joining lines ──────────────────────────────────────────────────────────

/// The pieces joined with `sep` between each two of them (`[T]::join`).
pub open spec fn join_sep(ls: Seq<Seq<char>>, sep: Seq<char>) -> Seq<char>
    decreases ls.len(),
{
    if ls.len() == 0 {
        Seq::empty()
    } else if ls.len() == 1 {
        ls[0]
    } else {
        join_sep(ls.drop_last(), sep) + sep + ls.last()
    }
}

/// The pieces joined with a line break between each two of them.
pub open spec fn join_lines(ls: Seq<Seq<char>>) -> Seq<char> {
    join_sep(ls, seq!['\n'])
}

/// Joins the strings with `sep` between each two of them.
pub fn join_with(parts: &Vec<String>, sep: char) -> (r: String)
    ensures
        r@ == join_sep(strings_view(parts@), seq![sep]),
{
    let mut out = String::new();
    let mut i: usize = 0;
    while i < parts.len()
        invariant
            i <= parts@.len(),
            out@ == join_sep(strings_view(parts@).take(i as int), seq![sep]),
        decreases parts.len() - i,
    {
        let ghost before = out@;
        if i > 0 {
            push_char(&mut out, sep);
        }
        push_str(&mut out, parts[i].as_str());
        proof {
            let t = strings_view(parts@).take(i + 1);
            assert(t.drop_last() =~= strings_view(parts@).take(i as int));
            assert(t.last() == parts@[i as int]@);
            if i == 0 {
                assert(out@ =~= t[0]);
            } else {
                assert(out@ =~= before + seq![sep] + t.last());
            }
        }
        i = i + 1;
    }
    assert(strings_view(parts@).take(parts@.len() as int) =~= strings_view(parts@));
    out
}

/// Joins the strings with a line break between each two of them.
pub fn join_with_newlines(parts: &Vec<String>) -> (r: String)
    ensures
        r@ == join_lines(strings_view(parts@)),
{
    join_with(parts, '\n')
}

/// A line with the two-space indent of the log.
pub open spec fn indent(l: Seq<char>) -> Seq<char> {
    seq![' ', ' '] + l
}

/// Every line indented by two spaces.
pub open spec fn indent_all(ls: Seq<Seq<char>>) -> Seq<Seq<char>> {
    ls.map_values(|l: Seq<char>| indent(l))
}

/// Every line of `t` indented by two spaces, joined again with line breaks.
pub open spec fn spec_indented_lines(t: Seq<char>) -> Seq<char> {
    join_lines(indent_all(text_lines(t)))
}

/// Indents every line of `text` by two spaces.
pub fn indented_lines(text: &str) -> (r: String)
    ensures
        r@ == spec_indented_lines(text@),
{
    let lines = split_text_lines(text);
    let ghost ls = strings_view(lines@);
    let mut out: Vec<String> = Vec::new();
    let mut i: usize = 0;
    while i < lines.len()
        invariant
            i <= lines@.len(),
            ls == strings_view(lines@),
            ls == text_lines(text@),
            strings_view(out@) == indent_all(ls.take(i as int)),
        decreases lines.len() - i,
    {
        let mut l = String::new();
        push_char(&mut l, ' ');
        push_char(&mut l, ' ');
        push_str(&mut l, lines[i].as_str());
        let ghost before = out@;
        out.push(l);
        proof {
            assert(l@ =~= indent(ls[i as int]));
            assert(out@ =~= before.push(l));
            let want = indent_all(ls.take(i + 1));
            assert(ls.len() == lines@.len());
            assert(ls.take(i as int).len() == i);
            assert(strings_view(before).len() == before.len());
            assert(before.len() == i);
            assert(strings_view(out@).len() == i + 1);
            assert(want.len() == i + 1);
            assert forall|k: int| 0 <= k < i + 1 implies #[trigger] strings_view(out@)[k] == want[k] by {
                assert(strings_view(out@)[k] == out@[k]@);
                assert(want[k] == indent(ls.take(i + 1)[k]));
                assert(ls.take(i + 1)[k] == ls[k]);
                if k < i {
                    assert(out@[k] == before[k]);
                    assert(strings_view(before)[k] == before[k]@);
                    assert(strings_view(before)[k] == indent_all(ls.take(i as int))[k]);
                    assert(indent_all(ls.take(i as int))[k] == indent(ls.take(i as int)[k]));
                } else {
                    assert(out@[k] == l);
                }
            }
            assert(strings_view(out@) =~= want);
        }
        i = i + 1;
    }
    assert(ls.take(ls.len() as int) =~= ls);
    join_with_newlines(&out)
}

// ── requests ───────────────────────────────────────────────────────────────

/// The `Host` header value for an address: the IP text, in brackets for an
/// IPv6 address, then a colon and the port.
pub open spec fn spec_host_header(ip: Seq<char>, is_v6: bool, port: u16) -> Seq<char> {
    if is_v6 {
        seq!['['] + ip + seq![']', ':'] + decimal(port as nat)
    } else {
        ip + seq![':'] + decimal(port as nat)
    }
}

/// Writes an address as the `Host` header shows it.
pub fn host_header(ip: &str, is_v6: bool, port: u16) -> (r: String)
    ensures
        r@ == spec_host_header(ip@, is_v6, port),
{
    let mut r = String::new();
    if is_v6 {
        push_char(&mut r, '[');
    }
    push_str(&mut r, ip);
    if is_v6 {
        push_char(&mut r, ']');
    }
    push_char(&mut r, ':');
    let d = decimal_string(port as u64);
    push_str(&mut r, d.as_str());
    r
}

pub open spec fn body_view(body: Option<(&str, usize)>) -> Option<(Seq<char>, usize)> {
    match body {
        Some(b) => Some((b.0@, b.1)),
        None => None,
    }
}

/// The header lines of a logged request.
pub open spec fn request_headers(
    method: Seq<char>,
    path: Seq<char>,
    host: Seq<char>,
    body: Option<(Seq<char>, usize)>,
) -> Seq<Seq<char>> {
    let len: nat = match body {
        Some(b) => b.1 as nat,
        None => 0,
    };
    let base = seq![
        method + " "@ + path + " HTTP/1.1"@,
        "Host: "@ + host,
        "Connection: close"@,
        "Content-Length: "@ + decimal(len),
    ];
    if body is Some {
        base.push("Content-Type: application/json"@)
    } else {
        base
    }
}

/// A request as the log shows it: a `header:` section with the indented
/// header lines and, for a request with a body, a `body:` section with the
/// indented body.
pub open spec fn spec_format_mascot_request(
    method: Seq<char>,
    path: Seq<char>,
    host: Seq<char>,
    body: Option<(Seq<char>, usize)>,
) -> Seq<char> {
    let head = seq!["header:"@, spec_indented_lines(join_lines(request_headers(method, path, host, body)))];
    match body {
        Some(b) => join_lines(head + seq!["body:"@, spec_indented_lines(b.0)]),
        None => join_lines(head),
    }
}

/// Writes a request down for the log; `body` is the body text to show and
/// the length the `Content-Length` header gives.
pub fn format_mascot_request(method: &str, path: &str, host: &str, body: Option<(&str, usize)>) -> (r: String)
    ensures
        r@ == spec_format_mascot_request(method@, path@, host@, body_view(body)),
{
    let len: usize = match body {
        Some(b) => b.1,
        None => 0,
    };
    let mut l0 = String::new();
    push_str(&mut l0, method);
    push_str(&mut l0, " ");
    push_str(&mut l0, path);
    push_str(&mut l0, " HTTP/1.1");
    let mut l1 = "Host: ".to_owned();
    push_str(&mut l1, host);
    let l2 = "Connection: close".to_owned();
    let mut l3 = "Content-Length: ".to_owned();
    let d = decimal_string(len as u64);
    push_str(&mut l3, d.as_str());
    let mut headers: Vec<String> = Vec::new();
    headers.push(l0);
    headers.push(l1);
    headers.push(l2);
    headers.push(l3);
    if body.is_some() {
        headers.push("Content-Type: application/json".to_owned());
    }
    assert(strings_view(headers@) =~= request_headers(method@, path@, host@, body_view(body)));
    let joined = join_with_newlines(&headers);
    let mut sections: Vec<String> = Vec::new();
    sections.push("header:".to_owned());
    sections.push(indented_lines(joined.as_str()));
    match body {
        Some(b) => {
            sections.push("body:".to_owned());
            sections.push(indented_lines(b.0));
        },
        None => {},
    }
    let ghost head = seq!["header:"@, spec_indented_lines(join_lines(request_headers(method@, path@, host@, body_view(body))))];
    proof {
        match body {
            Some(b) => {
                assert(strings_view(sections@) =~= head + seq!["body:"@, spec_indented_lines(b.0@)]);
            },
            None => {
                assert(strings_view(sections@) =~= head);
            },
        }
    }
    join_with_newlines(&sections)
}

/// The bytes of a `GET` request for a snapshot endpoint, as sent on the wire.
pub open spec fn spec_get_wire_request(endpoint: Seq<char>, host: Seq<char>) -> Seq<char> {
    "GET "@ + endpoint + " HTTP/1.1\r\nHost: "@ + host + "\r\nConnection: close\r\nContent-Length: 0\r\n\r\n"@
}

/// Writes the `GET` request for a snapshot endpoint.
pub fn format_mascot_get_wire_request(endpoint: &str, host: &str) -> (r: String)
    ensures
        r@ == spec_get_wire_request(endpoint@, host@),
{
    let mut r = "GET ".to_owned();
    push_str(&mut r, endpoint);
    push_str(&mut r, " HTTP/1.1\r\nHost: ");
    push_str(&mut r, host);
    push_str(&mut r, "\r\nConnection: close\r\nContent-Length: 0\r\n\r\n");
    r
}

/// The bytes of a `POST` request without a body, as sent on the wire.
pub open spec fn spec_empty_post_wire_request(path: Seq<char>, host: Seq<char>) -> Seq<char> {
    "POST "@ + path + " HTTP/1.1\r\nHost: "@ + host + "\r\nConnection: close\r\nContent-Length: 0\r\n\r\n"@
}

/// Writes a `POST` request without a body.
pub fn format_mascot_empty_post_wire_request(path: &str, host: &str) -> (r: String)
    ensures
        r@ == spec_empty_post_wire_request(path@, host@),
{
    let mut r = "POST ".to_owned();
    push_str(&mut r, path);
    push_str(&mut r, " HTTP/1.1\r\nHost: ");
    push_str(&mut r, host);
    push_str(&mut r, "\r\nConnection: close\r\nContent-Length: 0\r\n\r\n");
    r
}

/// The head of a JSON `POST` request, as sent on the wire before its body.
pub open spec fn spec_post_wire_head(path: Seq<char>, host: Seq<char>, body_len: usize) -> Seq<char> {
    "POST "@ + path + " HTTP/1.1\r\nHost: "@ + host + "\r\nConnection: close\r\nContent-Length: "@
        + decimal(body_len as nat) + "\r\nContent-Type: application/json\r\n\r\n"@
}

/// Writes the head of a JSON `POST` request whose body has `body_len` bytes.
pub fn format_mascot_post_wire_head(path: &str, host: &str, body_len: usize) -> (r: String)
    ensures
        r@ == spec_post_wire_head(path@, host@, body_len),
{
    let mut r = "POST ".to_owned();
    push_str(&mut r, path);
    push_str(&mut r, " HTTP/1.1\r\nHost: ");
    push_str(&mut r, host);
    push_str(&mut r, "\r\nConnection: close\r\nContent-Length: ");
    let d = decimal_string(body_len as u64);
    push_str(&mut r, d.as_str());
    push_str(&mut r, "\r\nContent-Type: application/json\r\n\r\n");
    r
}


// ── log lines ──────────────────────────────────────────────────────────────

/// A log line: the timestamp in brackets, the `[mascot-render]` category and
/// the message.
pub open spec fn spec_log_message(timestamp: Seq<char>, message: Seq<char>) -> Seq<char> {
    "["@ + timestamp + "] [mascot-render] "@ + message
}

/// Writes a log line; `timestamp` is the local time as the log shows it.
pub fn format_mascot_log_message(timestamp: &str, message: &str) -> (r: String)
    ensures
        r@ == spec_log_message(timestamp@, message@),
{
    let mut r = "[".to_owned();
    push_str(&mut r, timestamp);
    push_str(&mut r, "] [mascot-render] ");
    push_str(&mut r, message);
    r
}

pub open spec fn spec_sync_log_prefix(sync_id: u64, phase: Seq<char>) -> Seq<char> {
    "sync_id="@ + decimal(sync_id as nat) + " phase="@ + phase
}

/// The prefix that ties a log line to one sync and its phase.
pub fn sync_log_prefix(sync_id: u64, phase: &str) -> (r: String)
    ensures
        r@ == spec_sync_log_prefix(sync_id, phase@),
{
    let mut r = "sync_id=".to_owned();
    let d = decimal_string(sync_id);
    push_str(&mut r, d.as_str());
    push_str(&mut r, " phase=");
    push_str(&mut r, phase);
    r
}

/// A ` name=value` field for a number of milliseconds, empty without one.
pub open spec fn spec_ms_field(name: Seq<char>, ms: Option<u64>) -> Seq<char> {
    match ms {
        Some(v) => " "@ + name + "="@ + decimal(v as nat),
        None => Seq::empty(),
    }
}

fn ms_field(name: &str, ms: Option<u64>) -> (r: String)
    ensures
        r@ == spec_ms_field(name@, ms),
{
    match ms {
        Some(v) => {
            let mut r = " ".to_owned();
            push_str(&mut r, name);
            push_str(&mut r, "=");
            let d = decimal_string(v);
            push_str(&mut r, d.as_str());
            r
        },
        None => String::new(),
    }
}

/// The ` elapsed_ms=N` field of a sync log line, empty when the sync start
/// is not known.
pub fn optional_elapsed_field(elapsed_ms: Option<u64>) -> (r: String)
    ensures
        r@ == spec_ms_field("elapsed_ms"@, elapsed_ms),
{
    ms_field("elapsed_ms", elapsed_ms)
}

/// The ` duration_ms=N` field of a request result, empty when not measured.
pub fn optional_request_duration_field(duration_ms: Option<u64>) -> (r: String)
    ensures
        r@ == spec_ms_field("duration_ms"@, duration_ms),
{
    ms_field("duration_ms", duration_ms)
}

/// Event details, led by `elapsed_ms=N` when the sync start is known.
pub open spec fn spec_event_details(elapsed_ms: Option<u64>, details: Seq<char>) -> Seq<char> {
    match elapsed_ms {
        Some(ms) => "elapsed_ms="@ + decimal(ms as nat) + " "@ + details,
        None => details,
    }
}

/// Puts the elapsed time since the sync started in front of event details.
pub fn event_details_with_elapsed(elapsed_ms: Option<u64>, details: &str) -> (r: String)
    ensures
        r@ == spec_event_details(elapsed_ms, details@),
{
    match elapsed_ms {
        Some(ms) => {
            let mut r = "elapsed_ms=".to_owned();
            let d = decimal_string(ms);
            push_str(&mut r, d.as_str());
            push_str(&mut r, " ");
            push_str(&mut r, details);
            r
        },
        None => details.to_owned(),
    }
}

/// The log line of one sync event.
pub open spec fn spec_sync_event_message(
    timestamp: Seq<char>,
    sync_id: u64,
    phase: Seq<char>,
    event: Seq<char>,
    details: Seq<char>,
) -> Seq<char> {
    spec_log_message(
        timestamp,
        spec_sync_log_prefix(sync_id, phase) + " event="@ + event + if details.len() == 0 {
            Seq::empty()
        } else {
            " "@ + details
        },
    )
}

/// Writes the log line of one sync event.
pub fn sync_event_message(timestamp: &str, sync_id: u64, phase: &str, event: &str, details: &str) -> (r: String)
    ensures
        r@ == spec_sync_event_message(timestamp@, sync_id, phase@, event@, details@),
{
    let mut m = sync_log_prefix(sync_id, phase);
    push_str(&mut m, " event=");
    push_str(&mut m, event);
    if !details.is_empty() {
        push_str(&mut m, " ");
        push_str(&mut m, details);
    }
    format_mascot_log_message(timestamp, m.as_str())
}

/// The notices about the renderer that the status area shows.
#[derive(Debug, Clone, Copy, PartialEq, Eq, Structural)]
pub enum MascotNotice {
    /// The request log could not be written.
    LogWriteFailed,
    /// The ensemble members could not be posted.
    MembersUpdateFailed,
    /// Posting the ensemble members was given up.
    MembersSyncSkipped,
    /// The ensemble set-up at start was given up.
    EnsembleStartupSkipped,
    /// The renderer could not be put back into single-character mode at exit.
    ExitRestoreFailed,
    /// `config.toml` could not be read for the snapshot switch.
    SnapshotConfigUnreadable,
}

/// The text before the detail of each notice.
pub open spec fn spec_notice_prefix(kind: MascotNotice) -> Seq<char> {
    match kind {
        MascotNotice::LogWriteFailed => "[mascot-render] ログ書き込みに失敗しました: "@,
        MascotNotice::MembersUpdateFailed => "[mascot-render] vpt ensemble members更新に失敗しました: "@,
        MascotNotice::MembersSyncSkipped => "[mascot-render] vpt ensemble members更新をスキップしました: "@,
        MascotNotice::EnsembleStartupSkipped => "[mascot-render] vpt ensemble 準備をスキップしました: "@,
        MascotNotice::ExitRestoreFailed => "[mascot-render] 終了時の ensemble mode 復元に失敗しました: "@,
        MascotNotice::SnapshotConfigUnreadable => "[mascot-render] config.toml の snapshot 設定を読めませんでした: "@,
    }
}

/// Writes a notice about the renderer with its detail (usually an error).
pub fn mascot_notice(kind: MascotNotice, detail: &str) -> (r: String)
    ensures
        r@ == spec_notice_prefix(kind) + detail@,
{
    let mut r = match kind {
        MascotNotice::LogWriteFailed => "[mascot-render] ログ書き込みに失敗しました: ".to_owned(),
        MascotNotice::MembersUpdateFailed => "[mascot-render] vpt ensemble members更新に失敗しました: ".to_owned(),
        MascotNotice::MembersSyncSkipped => "[mascot-render] vpt ensemble members更新をスキップしました: ".to_owned(),
        MascotNotice::EnsembleStartupSkipped => "[mascot-render] vpt ensemble 準備をスキップしました: ".to_owned(),
        MascotNotice::ExitRestoreFailed => "[mascot-render] 終了時の ensemble mode 復元に失敗しました: ".to_owned(),
        MascotNotice::SnapshotConfigUnreadable => "[mascot-render] config.toml の snapshot 設定を読めませんでした: ".to_owned(),
    };
    push_str(&mut r, detail);
    r
}

// ── request results ────────────────────────────────────────────────────────

pub open spec fn result_view(r: Result<(), String>) -> Result<(), Seq<char>> {
    match r {
        Ok(()) => Ok(()),
        Err(e) => Err(e@),
    }
}

/// The log entry of a request and whether it is shown as a blocking overlay
/// too (it is when the request failed).
pub open spec fn spec_request_result_log(
    timestamp: Seq<char>,
    action: Seq<char>,
    port: u16,
    request: Seq<char>,
    result: Result<(), Seq<char>>,
) -> (Seq<char>, bool) {
    match result {
        Ok(()) => (
            spec_log_message(timestamp, "port "@ + decimal(port as nat) + " に "@ + action + "request を送信しました。"@)
                + "\nrequest:\n"@ + request,
            false,
        ),
        Err(e) => (
            spec_log_message(
                timestamp,
                "port "@ + decimal(port as nat) + " への "@ + action + "request 送信に失敗しました: "@ + e,
            ) + "\nrequest:\n"@ + request,
            true,
        ),
    }
}

/// Writes the log entry of a request's result; the flag says whether the
/// entry is to be shown as a blocking overlay as well.
pub fn request_result_log(
    timestamp: &str,
    action: &str,
    port: u16,
    request: &str,
    result: &Result<(), String>,
) -> (r: (String, bool))
    ensures
        (r.0@, r.1) == spec_request_result_log(timestamp@, action@, port, request@, result_view(*result)),
{
    let mut m = "port ".to_owned();
    let d = decimal_string(port as u64);
    push_str(&mut m, d.as_str());
    let failed = match result {
        Ok(()) => {
            push_str(&mut m, " に ");
            push_str(&mut m, action);
            push_str(&mut m, "request を送信しました。");
            false
        },
        Err(e) => {
            push_str(&mut m, " への ");
            push_str(&mut m, action);
            push_str(&mut m, "request 送信に失敗しました: ");
            push_str(&mut m, e.as_str());
            true
        },
    };
    let mut entry = format_mascot_log_message(timestamp, m.as_str());
    push_str(&mut entry, "\nrequest:\n");
    push_str(&mut entry, request);
    (entry, failed)
}

/// The log line written when a sync request starts.
pub open spec fn spec_sync_request_start_message(
    timestamp: Seq<char>,
    sync_id: u64,
    phase: Seq<char>,
    action: Seq<char>,
    port: u16,
    elapsed_ms: Option<u64>,
) -> Seq<char> {
    spec_log_message(
        timestamp,
        spec_sync_log_prefix(sync_id, phase) + " event=request_start"@ + spec_ms_field("elapsed_ms"@, elapsed_ms)
            + " port "@ + decimal(port as nat) + " への "@ + action + "request 送信を開始します。"@,
    )
}

/// Writes the log line of a sync request's start.
pub fn sync_request_start_message(
    timestamp: &str,
    sync_id: u64,
    phase: &str,
    action: &str,
    port: u16,
    elapsed_ms: Option<u64>,
) -> (r: String)
    ensures
        r@ == spec_sync_request_start_message(timestamp@, sync_id, phase@, action@, port, elapsed_ms),
{
    let mut m = sync_log_prefix(sync_id, phase);
    push_str(&mut m, " event=request_start");
    let f = optional_elapsed_field(elapsed_ms);
    push_str(&mut m, f.as_str());
    push_str(&mut m, " port ");
    let d = decimal_string(port as u64);
    push_str(&mut m, d.as_str());
    push_str(&mut m, " への ");
    push_str(&mut m, action);
    push_str(&mut m, "request 送信を開始します。");
    format_mascot_log_message(timestamp, m.as_str())
}

/// The log entry of a sync request's result, and whether it is shown as a
/// blocking overlay too (it is when the request failed).
pub open spec fn spec_sync_request_result_log(
    timestamp: Seq<char>,
    sync_id: u64,
    phase: Seq<char>,
    action: Seq<char>,
    port: u16,
    elapsed_ms: Option<u64>,
    duration_ms: Option<u64>,
    request: Seq<char>,
    result: Result<(), Seq<char>>,
) -> (Seq<char>, bool) {
    let head = spec_sync_log_prefix(sync_id, phase) + " event=request_end"@ + spec_ms_field("elapsed_ms"@, elapsed_ms)
        + spec_ms_field("duration_ms"@, duration_ms);
    match result {
        Ok(()) => (
            spec_log_message(
                timestamp,
                head + " status=ok port "@ + decimal(port as nat) + " に "@ + action + "request を送信しました。"@,
            ) + "\nrequest:\n"@ + request,
            false,
        ),
        Err(e) => (
            spec_log_message(
                timestamp,
                head + " status=error port "@ + decimal(port as nat) + " への "@ + action
                    + "request 送信に失敗しました: "@ + e,
            ) + "\nrequest:\n"@ + request,
            true,
        ),
    }
}

/// Writes the log entry of a sync request's result; the flag says whether
/// the entry is to be shown as a blocking overlay as well.
pub fn sync_request_result_log(
    timestamp: &str,
    sync_id: u64,
    phase: &str,
    action: &str,
    port: u16,
    elapsed_ms: Option<u64>,
    duration_ms: Option<u64>,
    request: &str,
    result: &Result<(), String>,
) -> (r: (String, bool))
    ensures
        (r.0@, r.1) == spec_sync_request_result_log(
            timestamp@,
            sync_id,
            phase@,
            action@,
            port,
            elapsed_ms,
            duration_ms,
            request@,
            result_view(*result),
        ),
{
    let mut m = sync_log_prefix(sync_id, phase);
    push_str(&mut m, " event=request_end");
    let f = optional_elapsed_field(elapsed_ms);
    push_str(&mut m, f.as_str());
    let g = optional_request_duration_field(duration_ms);
    push_str(&mut m, g.as_str());
    let d = decimal_string(port as u64);
    let failed = match result {
        Ok(()) => {
            push_str(&mut m, " status=ok port ");
            push_str(&mut m, d.as_str());
            push_str(&mut m, " に ");
            push_str(&mut m, action);
            push_str(&mut m, "request を送信しました。");
            false
        },
        Err(e) => {
            push_str(&mut m, " status=error port ");
            push_str(&mut m, d.as_str());
            push_str(&mut m, " への ");
            push_str(&mut m, action);
            push_str(&mut m, "request 送信に失敗しました: ");
            push_str(&mut m, e.as_str());
            true
        },
    };
    let mut entry = format_mascot_log_message(timestamp, m.as_str());
    push_str(&mut entry, "\nrequest:\n");
    push_str(&mut entry, request);
    (entry, failed)
}

// ── server snapshots ───────────────────────────────────────────────────────

/// The most response bytes kept of one snapshot.
pub const MAX_SNAPSHOT_RESPONSE_BYTES: usize = 262144;

/// The endpoints whose replies a snapshot records, in order.
pub open spec fn spec_snapshot_endpoints() -> Seq<Seq<char>> {
    seq!["/status"@, "/placement/anchor-plan"@]
}

/// The endpoints whose replies a snapshot records, in order.
pub fn snapshot_endpoints() -> (v: Vec<String>)
    ensures
        strings_view(v@) == spec_snapshot_endpoints(),
{
    let mut v: Vec<String> = Vec::new();
    v.push("/status".to_owned());
    v.push("/placement/anchor-plan".to_owned());
    assert(strings_view(v@) =~= spec_snapshot_endpoints());
    v
}

/// Details of the event that opens a snapshot: its timing and the endpoints.
pub open spec fn spec_snapshot_start_details(timing: Seq<char>) -> Seq<char> {
    "timing="@ + timing + " endpoints="@ + join_sep(spec_snapshot_endpoints(), seq![','])
}

/// Writes the details of the event that opens a snapshot.
pub fn snapshot_start_details(timing: &str) -> (r: String)
    ensures
        r@ == spec_snapshot_start_details(timing@),
{
    let mut r = "timing=".to_owned();
    push_str(&mut r, timing);
    push_str(&mut r, " endpoints=");
    let e = snapshot_endpoints();
    let j = join_with(&e, ',');
    push_str(&mut r, j.as_str());
    r
}

/// Details of the event that closes a snapshot.
pub open spec fn spec_snapshot_end_details(timing: Seq<char>, duration_ms: u64) -> Seq<char> {
    "timing="@ + timing + " duration_ms="@ + decimal(duration_ms as nat)
}

/// Writes the details of the event that closes a snapshot.
pub fn snapshot_end_details(timing: &str, duration_ms: u64) -> (r: String)
    ensures
        r@ == spec_snapshot_end_details(timing@, duration_ms),
{
    let mut r = "timing=".to_owned();
    push_str(&mut r, timing);
    push_str(&mut r, " duration_ms=");
    let d = decimal_string(duration_ms);
    push_str(&mut r, d.as_str());
    r
}

/// Details of the event that opens one endpoint's snapshot.
pub open spec fn spec_endpoint_start_details(timing: Seq<char>, endpoint: Seq<char>) -> Seq<char> {
    "timing="@ + timing + " endpoint="@ + endpoint
}

/// Writes the details of the event that opens one endpoint's snapshot.
pub fn endpoint_start_details(timing: &str, endpoint: &str) -> (r: String)
    ensures
        r@ == spec_endpoint_start_details(timing@, endpoint@),
{
    let mut r = "timing=".to_owned();
    push_str(&mut r, timing);
    push_str(&mut r, " endpoint=");
    push_str(&mut r, endpoint);
    r
}

/// Whether snapshots are taken after a failed playback request: only when
/// the request failed and snapshots are not logged around every request
/// anyway.
pub fn error_snapshots_due(request_failed: bool, snapshot_log_enabled: bool) -> (b: bool)
    ensures
        b == (request_failed && !snapshot_log_enabled),
{
    request_failed && !snapshot_log_enabled
}

/// What was read of one endpoint's reply.
pub struct MascotHttpSnapshot {
    /// The first line of the reply's head, if it had one.
    pub status_line: Option<String>,
    /// The reply's body, tidied (see `spec_pretty_json_body`).
    pub body: String,
    /// Whether the reply was cut at `MAX_SNAPSHOT_RESPONSE_BYTES`.
    pub truncated: bool,
    /// Whether the read timed out after part of the reply had come.
    pub timed_out_after_partial: bool,
}

pub open spec fn opt_string_view(o: Option<String>) -> Option<Seq<char>> {
    match o {
        Some(s) => Some(s@),
        None => None,
    }
}

/// The lines that describe a snapshot in the log.
pub open spec fn spec_snapshot_response(
    status: Option<Seq<char>>,
    body: Seq<char>,
    truncated: bool,
    timed_out: bool,
) -> Seq<char> {
    let l0 = seq![
        "status: "@ + match status {
            Some(s) => s,
            None => "(unknown)"@,
        },
    ];
    let l1 = if truncated {
        l0.push("truncated: true (limit_bytes="@ + decimal(MAX_SNAPSHOT_RESPONSE_BYTES as nat) + ")"@)
    } else {
        l0
    };
    let l2 = if timed_out {
        l1.push("timed_out_after_partial: true"@)
    } else {
        l1
    };
    let l3 = if !is_blank(body) {
        l2 + seq!["body:"@, spec_indented_lines(trim_end(body))]
    } else {
        l2
    };
    join_lines(l3)
}

/// Describes a snapshot for the log.
pub fn format_mascot_snapshot_response(snapshot: &MascotHttpSnapshot) -> (r: String)
    ensures
        r@ == spec_snapshot_response(
            opt_string_view(snapshot.status_line),
            snapshot.body@,
            snapshot.truncated,
            snapshot.timed_out_after_partial,
        ),
{
    let mut first = "status: ".to_owned();
    match &snapshot.status_line {
        Some(l) => push_str(&mut first, l.as_str()),
        None => push_str(&mut first, "(unknown)"),
    }
    let mut lines: Vec<String> = Vec::new();
    lines.push(first);
    let ghost l0 = strings_view(lines@);
    if snapshot.truncated {
        let mut t = "truncated: true (limit_bytes=".to_owned();
        let d = decimal_string(MAX_SNAPSHOT_RESPONSE_BYTES as u64);
        push_str(&mut t, d.as_str());
        push_str(&mut t, ")");
        lines.push(t);
    }
    let ghost l1 = strings_view(lines@);
    if snapshot.timed_out_after_partial {
        lines.push("timed_out_after_partial: true".to_owned());
    }
    let ghost l2 = strings_view(lines@);
    if !is_blank_str(snapshot.body.as_str()) {
        lines.push("body:".to_owned());
        let t = trimmed_end(snapshot.body.as_str());
        lines.push(indented_lines(t.as_str()));
        assert(strings_view(lines@) =~= l2 + seq!["body:"@, spec_indented_lines(trim_end(snapshot.body@))]);
    }
    proof {
        let status = opt_string_view(snapshot.status_line);
        assert(l0 =~= seq![
            "status: "@ + match status {
                Some(s) => s,
                None => "(unknown)"@,
            },
        ]);
        if snapshot.truncated {
            assert(l1 =~= l0.push(
                "truncated: true (limit_bytes="@ + decimal(MAX_SNAPSHOT_RESPONSE_BYTES as nat) + ")"@,
            ));
        } else {
            assert(l1 =~= l0);
        }
        if snapshot.timed_out_after_partial {
            assert(l2 =~= l1.push("timed_out_after_partial: true"@));
        } else {
            assert(l2 =~= l1);
        }
    }
    join_with_newlines(&lines)
}

/// The log entry of one endpoint's snapshot: `Ok` with the described reply,
/// or `Err` with the reason it could not be read.
pub open spec fn spec_snapshot_endpoint_message(
    timestamp: Seq<char>,
    sync_id: u64,
    phase: Seq<char>,
    timing: Seq<char>,
    endpoint: Seq<char>,
    port: u16,
    request: Seq<char>,
    duration_ms: u64,
    elapsed_ms: Option<u64>,
    outcome: Result<Seq<char>, Seq<char>>,
) -> Seq<char> {
    let head = spec_sync_log_prefix(sync_id, phase) + " event=snapshot_endpoint_end"@ + spec_ms_field(
        "elapsed_ms"@,
        elapsed_ms,
    ) + " timing="@ + timing + " endpoint="@ + endpoint + " duration_ms="@ + decimal(duration_ms as nat);
    match outcome {
        Ok(described) => spec_log_message(
            timestamp,
            head + " status=ok "@ + timing + " "@ + endpoint + " snapshot を port "@ + decimal(port as nat)
                + " から取得しました。"@,
        ) + "\nrequest:\n"@ + request + "\nresponse:\n"@ + spec_indented_lines(described),
        Err(e) => spec_log_message(
            timestamp,
            head + " status=error "@ + timing + " "@ + endpoint + " snapshot を port "@ + decimal(port as nat)
                + " から取得できませんでした: "@ + e,
        ) + "\nrequest:\n"@ + request + "\nerror:\n"@ + spec_indented_lines(e),
    }
}

pub open spec fn snapshot_outcome(snapshot: Result<MascotHttpSnapshot, String>) -> Result<Seq<char>, Seq<char>> {
    match snapshot {
        Ok(s) => Ok(
            spec_snapshot_response(opt_string_view(s.status_line), s.body@, s.truncated, s.timed_out_after_partial),
        ),
        Err(e) => Err(e@),
    }
}

/// Writes the log entry of one endpoint's snapshot; `request` is the request
/// as the log shows it and `snapshot` what was read, or why nothing was.
pub fn format_mascot_sync_snapshot_message(
    timestamp: &str,
    sync_id: u64,
    phase: &str,
    timing: &str,
    endpoint: &str,
    port: u16,
    request: &str,
    duration_ms: u64,
    elapsed_ms: Option<u64>,
    snapshot: &Result<MascotHttpSnapshot, String>,
) -> (r: String)
    ensures
        r@ == spec_snapshot_endpoint_message(
            timestamp@,
            sync_id,
            phase@,
            timing@,
            endpoint@,
            port,
            request@,
            duration_ms,
            elapsed_ms,
            snapshot_outcome(*snapshot),
        ),
{
    let mut m = sync_log_prefix(sync_id, phase);
    push_str(&mut m, " event=snapshot_endpoint_end");
    let f = optional_elapsed_field(elapsed_ms);
    push_str(&mut m, f.as_str());
    push_str(&mut m, " timing=");
    push_str(&mut m, timing);
    push_str(&mut m, " endpoint=");
    push_str(&mut m, endpoint);
    push_str(&mut m, " duration_ms=");
    let d = decimal_string(duration_ms);
    push_str(&mut m, d.as_str());
    let p = decimal_string(port as u64);
    match snapshot {
        Ok(s) => {
            push_str(&mut m, " status=ok ");
            push_str(&mut m, timing);
            push_str(&mut m, " ");
            push_str(&mut m, endpoint);
            push_str(&mut m, " snapshot を port ");
            push_str(&mut m, p.as_str());
            push_str(&mut m, " から取得しました。");
            let mut entry = format_mascot_log_message(timestamp, m.as_str());
            push_str(&mut entry, "\nrequest:\n");
            push_str(&mut entry, request);
            push_str(&mut entry, "\nresponse:\n");
            let described = format_mascot_snapshot_response(s);
            let ind = indented_lines(described.as_str());
            push_str(&mut entry, ind.as_str());
            entry
        },
        Err(e) => {
            push_str(&mut m, " status=error ");
            push_str(&mut m, timing);
            push_str(&mut m, " ");
            push_str(&mut m, endpoint);
            push_str(&mut m, " snapshot を port ");
            push_str(&mut m, p.as_str());
            push_str(&mut m, " から取得できませんでした: ");
            push_str(&mut m, e.as_str());
            let mut entry = format_mascot_log_message(timestamp, m.as_str());
            push_str(&mut entry, "\nrequest:\n");
            push_str(&mut entry, request);
            push_str(&mut entry, "\nerror:\n");
            let ind = indented_lines(e.as_str());
            push_str(&mut entry, ind.as_str());
            entry
        },
    }
}

/// How many of `read_len` freshly read bytes are kept when `current_len`
/// are kept already, and whether the reply is cut there.
pub open spec fn spec_snapshot_take(current_len: usize, read_len: usize) -> (usize, bool) {
    let remaining: int = if current_len <= MAX_SNAPSHOT_RESPONSE_BYTES {
        MAX_SNAPSHOT_RESPONSE_BYTES - current_len
    } else {
        0
    };
    if read_len > remaining {
        (remaining as usize, true)
    } else {
        (read_len, false)
    }
}

/// Decides how much of a chunk read from a snapshot reply is kept.
pub fn snapshot_take(current_len: usize, read_len: usize) -> (r: (usize, bool))
    ensures
        r == spec_snapshot_take(current_len, read_len),
{
    let remaining = MAX_SNAPSHOT_RESPONSE_BYTES.saturating_sub(current_len);
    if read_len > remaining {
        (remaining, true)
    } else {
        (read_len, false)
    }
}

// ── snapshot replies ───────────────────────────────────────────────────────

/// The first position at or after `i` where `pat` occurs in `s`.
pub open spec fn find_from(s: Seq<char>, pat: Seq<char>, i: int) -> Option<int>
    decreases s.len() - i,
{
    if i < 0 || i + pat.len() > s.len() {
        None
    } else if s.subrange(i, i + pat.len()) == pat {
        Some(i)
    } else {
        proof {
            if pat.len() == 0 {
                assert(s.subrange(i, i) =~= pat);
            }
        }
        find_from(s, pat, i + 1)
    }
}

proof fn lemma_find_from_bounds(s: Seq<char>, pat: Seq<char>, i: int)
    ensures
        find_from(s, pat, i) matches Some(k) ==> i <= k && k + pat.len() <= s.len() && s.subrange(
            k,
            k + pat.len(),
        ) == pat,
    decreases s.len() - i,
{
    if !(i < 0 || i + pat.len() > s.len()) && s.subrange(i, i + pat.len()) != pat {
        if pat.len() == 0 {
            assert(s.subrange(i, i) =~= pat);
        }
        lemma_find_from_bounds(s, pat, i + 1);
    }
}

/// Where `pat` first occurs in `s`.
pub fn find_chars(s: &[char], pat: &[char]) -> (r: Option<usize>)
    ensures
        match r {
            Some(k) => find_from(s@, pat@, 0) == Some(k as int),
            None => find_from(s@, pat@, 0) is None,
        },
{
    if pat.len() > s.len() {
        return None;
    }
    let last = s.len() - pat.len();
    let mut i: usize = 0;
    loop
        invariant
            i <= last,
            last + pat@.len() == s@.len(),
            find_from(s@, pat@, 0) == find_from(s@, pat@, i as int),
        decreases last - i,
    {
        if matches_at(s, pat, i) {
            return Some(i);
        }
        if i == last {
            assert(find_from(s@, pat@, i + 1) is None);
            return None;
        }
        i = i + 1;
    }
}

/// A reply split into the first line of its head, if any, and its body: the
/// head ends at the first blank line (`\r\n\r\n`, else `\n\n`); with none,
/// the whole reply is head.
pub open spec fn spec_split_http_response(r: Seq<char>) -> (Option<Seq<char>>, Seq<char>) {
    let crlf2 = seq!['\r', '\n', '\r', '\n'];
    let lf2 = seq!['\n', '\n'];
    let parts: (Seq<char>, Seq<char>) = match find_from(r, crlf2, 0) {
        Some(i) => (r.subrange(0, i), r.subrange(i + 4, r.len() as int)),
        None => match find_from(r, lf2, 0) {
            Some(j) => (r.subrange(0, j), r.subrange(j + 2, r.len() as int)),
            None => (r, Seq::empty()),
        },
    };
    (
        if text_lines(parts.0).len() == 0 {
            None
        } else {
            Some(text_lines(parts.0)[0])
        },
        parts.1,
    )
}

/// Splits a reply into the first line of its head and its body.
pub fn split_http_response(response: &str) -> (r: (Option<String>, String))
    ensures
        (opt_string_view(r.0), r.1@) == spec_split_http_response(response@),
{
    let c = chars_of(response);
    let n = c.len();
    let crlf2: Vec<char> = vec!['\r', '\n', '\r', '\n'];
    let lf2: Vec<char> = vec!['\n', '\n'];
    assert(crlf2@ =~= seq!['\r', '\n', '\r', '\n']);
    assert(lf2@ =~= seq!['\n', '\n']);
    proof {
        lemma_find_from_bounds(c@, crlf2@, 0);
        lemma_find_from_bounds(c@, lf2@, 0);
    }
    let (a, b, e) = match find_chars(c.as_slice(), crlf2.as_slice()) {
        Some(i) => (i, i + 4, n),
        None => match find_chars(c.as_slice(), lf2.as_slice()) {
            Some(j) => (j, j + 2, n),
            None => (n, n, n),
        },
    };
    let head = string_from_chars(sub_chars(c.as_slice(), 0, a).as_slice());
    let body = string_from_chars(sub_chars(c.as_slice(), b, e).as_slice());
    proof {
        if a == n && b == n {
            assert(head@ =~= c@);
            assert(body@ =~= Seq::<char>::empty());
        }
    }
    let lines = split_text_lines(head.as_str());
    let first = if lines.len() == 0 {
        None
    } else {
        Some(lines[0].clone())
    };
    (first, body)
}

/// What printing the JSON value parsed from `text` gives: `None` when `text`
/// is not JSON.
pub uninterp spec fn json_pretty(text: Seq<char>) -> Option<Seq<char>>;

/// Parses `text` with `serde_json::from_str` into a `serde_json::Value` and
/// prints that value back with `serde_json::to_string_pretty`. The contract
/// claims only that the outcome depends on `text` alone (the name
/// `json_pretty`), which holds as `Value` keeps its object keys in a sorted map.
#[verifier::external_body]
fn reformat_json(text: &str) -> (r: Option<String>)
    ensures
        opt_string_view(r) == json_pretty(text@),
{
    match serde_json::from_str::<serde_json::Value>(text) {
        Ok(value) => serde_json::to_string_pretty(&value).ok(),
        Err(_) => None,
    }
}

/// A snapshot body as the log keeps it: trimmed, and pretty-printed where it
/// is JSON.
pub open spec fn spec_pretty_json_body(body: Seq<char>) -> Seq<char> {
    let t = trim(body);
    if t.len() == 0 {
        Seq::empty()
    } else {
        match json_pretty(t) {
            Some(p) => p,
            None => t,
        }
    }
}

/// Tidies a snapshot body: trimmed, and pretty-printed where it is JSON.
pub fn pretty_json_body(body: &str) -> (r: String)
    ensures
        r@ == spec_pretty_json_body(body@),
{
    let t = trimmed(body);
    if t.as_str().is_empty() {
        return String::new();
    }
    match reformat_json(t.as_str()) {
        Some(p) => p,
        None => t,
    }
}

/// What a snapshot records of the reply bytes read from an endpoint.
pub open spec fn spec_snapshot_of(response: Seq<u8>) -> (Option<Seq<char>>, Seq<char>) {
    let split = spec_split_http_response(utf8_lossy_text(response));
    (split.0, spec_pretty_json_body(split.1))
}

/// Builds the snapshot of the reply bytes read from an endpoint (decoded
/// leniently as UTF-8).
pub fn snapshot_from_response(response: &[u8], truncated: bool, timed_out_after_partial: bool) -> (s: MascotHttpSnapshot)
    ensures
        (opt_string_view(s.status_line), s.body@) == spec_snapshot_of(response@),
        s.truncated == truncated,
        s.timed_out_after_partial == timed_out_after_partial,
{
    let text = decode_utf8_lossy(response);
    let (status_line, body) = split_http_response(text.as_str());
    let body = pretty_json_body(body.as_str());
    MascotHttpSnapshot { status_line, body, truncated, timed_out_after_partial }
}

} // verus!
