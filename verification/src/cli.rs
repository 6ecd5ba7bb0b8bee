//! Command-line handling: which mode the program starts in.

use vstd::prelude::*;

use crate::tag::strings_view;

verus! {

/// What the program does when it starts.
#[derive(Debug, Clone, Copy, PartialEq, Eq, Structural)]
pub enum StartupMode {
    Normal,
    Clipboard,
    Update,
    Check,
}

/// `vpt update` and `vpt check` (with nothing else) select those commands;
/// otherwise `--clipboard` anywhere selects clipboard reading; otherwise the editor.
pub open spec fn spec_startup_mode(args: Seq<Seq<char>>) -> StartupMode {
    if args.len() == 2 && args[1] == "update"@ {
        StartupMode::Update
    } else if args.len() == 2 && args[1] == "check"@ {
        StartupMode::Check
    } else if args.contains("--clipboard"@) {
        StartupMode::Clipboard
    } else {
        StartupMode::Normal
    }
}

/// The startup mode for the command-line arguments (program name first).
pub fn startup_mode(args: &[String]) -> (m: StartupMode)
    ensures
        m == spec_startup_mode(strings_view(args@)),
{
    let ghost a = strings_view(args@);
    if args.len() == 2 {
        let update = "update".to_owned();
        if args[1] == update {
            return StartupMode::Update;
        }
        let check = "check".to_owned();
        if args[1] == check {
            return StartupMode::Check;
        }
    }
    let flag = "--clipboard".to_owned();
    let mut i: usize = 0;
    while i < args.len()
        invariant
            i <= args@.len(),
            a == strings_view(args@),
            flag@ == "--clipboard"@,
            !(a.len() == 2 && a[1] == "update"@),
            !(a.len() == 2 && a[1] == "check"@),
            forall|k: int| 0 <= k < i ==> a[k] != flag@,
        decreases args.len() - i,
    {
        if args[i] == flag {
            assert(a[i as int] == flag@);
            return StartupMode::Clipboard;
        }
        i = i + 1;
    }
    StartupMode::Normal
}

/// Spinner frame for the time elapsed since start: it turns every 120 ms.
pub open spec fn spec_frame_index(elapsed_ms: u128) -> int {
    ((elapsed_ms / 120) % 4) as int
}

/// The spinner frame for the time elapsed since start.
pub open spec fn spec_frame(elapsed_ms: u128) -> Seq<char> {
    let i = spec_frame_index(elapsed_ms);
    if i == 0 {
        "-"@
    } else if i == 1 {
        "\\"@
    } else if i == 2 {
        "|"@
    } else {
        "/"@
    }
}

/// The spinner frame shown `elapsed_ms` milliseconds after start.
pub fn frame_at(elapsed_ms: u128) -> (f: &'static str)
    ensures
        spec_frame_index(elapsed_ms) == 0 ==> f@ == "-"@,
        spec_frame_index(elapsed_ms) == 1 ==> f@ == "\\"@,
        spec_frame_index(elapsed_ms) == 2 ==> f@ == "|"@,
        spec_frame_index(elapsed_ms) == 3 ==> f@ == "/"@,
        f@ == spec_frame(elapsed_ms),
{
    let index = (elapsed_ms / 120) % 4;
    if index == 0 {
        "-"
    } else if index == 1 {
        "\\"
    } else if index == 2 {
        "|"
    } else {
        "/"
    }
}

/// `"{frame} {message}"`.
pub fn decorate_with_frame(message: &str, frame: &str) -> (s: String)
    ensures
        s@ == frame@ + " "@ + message@,
{
    let mut s = frame.to_owned();
    crate::text::push_str(&mut s, " ");
    crate::text::push_str(&mut s, message);
    s
}

} // verus!
