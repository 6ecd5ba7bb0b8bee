//! Where the editor keeps its files, the engine configuration and the
//! executables it may start. Paths are handled as text; joining them is
//! `Path::join`'s.

use vstd::prelude::*;

use crate::text::{chars_of, push_str};

verus! {

/// Name of the configuration file in the data directory.
pub const CONFIG_FILE_NAME: &'static str = "config.toml";

/// Where VOICEVOX is usually installed on macOS.
pub const MACOS_ENGINE_PATH: &'static str = "/Applications/VOICEVOX.app/Contents/MacOS/VOICEVOX";

/// Name of the renderer's executable.
pub const MASCOT_RENDER_SERVER_EXE_NAME: &'static str = "mascot-render-server";

/// What `Path::join` gives for `base` and `child`, as text: `child`
/// appended after a separator, or `child` alone when it is absolute (the
/// platform decides what a separator and an absolute path are).
pub uninterp spec fn spec_path_join(base: Seq<char>, child: Seq<char>) -> Seq<char>;

/// Joins `child` to `base` (wraps `Path::join`).
#[verifier::external_body]
pub(crate) fn path_join(base: &str, child: &str) -> (r: String)
    ensures
        r@ == spec_path_join(base@, child@),
{
    std::path::Path::new(base).join(child).to_string_lossy().into_owned()
}

/// The editor's data directory under the platform's local data directory
/// (the current directory when there is none).
pub fn history_dir(data_local_dir: Option<&str>) -> (r: String)
    ensures
        r@ == spec_path_join(
            match data_local_dir {
                Some(d) => d@,
                None => "."@,
            },
            "voicevox-playground-tui"@,
        ),
{
    match data_local_dir {
        Some(d) => path_join(d, "voicevox-playground-tui"),
        None => path_join(".", "voicevox-playground-tui"),
    }
}

/// The configuration file in the data directory `history_dir`.
pub fn config_path(history_dir: &str) -> (r: String)
    ensures
        r@ == spec_path_join(history_dir@, "config.toml"@),
{
    path_join(history_dir, CONFIG_FILE_NAME)
}

/// The history file of tab `tab_index` in the data directory.
pub fn history_path_for_tab(history_dir: &str, tab_index: usize) -> (r: String)
    requires
        tab_index < usize::MAX,
    ensures
        r@ == spec_path_join(history_dir@, crate::history::spec_history_file_name(tab_index)),
{
    let name = crate::history::history_file_name(tab_index);
    path_join(history_dir, name.as_str())
}

/// The session file (`history.json`) in the data directory.
pub fn session_state_path(history_dir: &str) -> (r: String)
    ensures
        r@ == spec_path_join(history_dir@, "history.json"@),
{
    path_join(history_dir, "history.json")
}

/// The renderer request log, `logs/request.log` in the data directory.
pub fn mascot_log_path(history_dir: &str) -> (r: String)
    ensures
        r@ == spec_path_join(spec_path_join(history_dir@, "logs"@), "request.log"@),
{
    let logs = path_join(history_dir, "logs");
    path_join(logs.as_str(), "request.log")
}

/// The renderer's default data root under the local data directory.
pub fn default_mascot_data_root(data_local_dir: Option<&str>) -> (r: Option<String>)
    ensures
        match data_local_dir {
            Some(d) => r is Some && r->0@ == spec_path_join(d@, "mascot-render-server"@),
            None => r is None,
        },
{
    match data_local_dir {
        Some(d) => Some(path_join(d, "mascot-render-server")),
        None => None,
    }
}

/// What `Path::is_absolute` answers for a path.
pub uninterp spec fn path_absolute(p: Seq<char>) -> bool;

/// Whether a path is absolute (wraps `Path::is_absolute`).
#[verifier::external_body]
fn path_is_absolute(p: &str) -> (b: bool)
    ensures
        b == path_absolute(p@),
{
    std::path::Path::new(p).is_absolute()
}

/// The renderer's data root: the configured root when one is set (an
/// absolute path as it is, a relative one under the local data directory),
/// the default root otherwise.
pub open spec fn spec_mascot_data_root(configured_root: Option<Seq<char>>, data_local_dir: Option<Seq<char>>) -> Option<Seq<char>> {
    match configured_root {
        Some(root) => if path_absolute(root) {
            Some(root)
        } else {
            match data_local_dir {
                Some(d) => Some(spec_path_join(d, root)),
                None => None,
            }
        },
        None => match data_local_dir {
            Some(d) => Some(spec_path_join(d, "mascot-render-server"@)),
            None => None,
        },
    }
}

/// Resolves the renderer's data root; `configured_root` is the value of the
/// data-root environment variable, if set.
pub fn mascot_data_root(configured_root: Option<&str>, data_local_dir: Option<&str>) -> (r: Option<String>)
    ensures
        opt_view(r) == spec_mascot_data_root(
            match configured_root {
                Some(c) => Some(c@),
                None => None,
            },
            match data_local_dir {
                Some(d) => Some(d@),
                None => None,
            },
        ),
{
    match configured_root {
        Some(root) => if path_is_absolute(root) {
            Some(root.to_owned())
        } else {
            match data_local_dir {
                Some(d) => Some(path_join(d, root)),
                None => None,
            }
        },
        None => default_mascot_data_root(data_local_dir),
    }
}

/// Paths and switches read from `config.toml`.
#[derive(Debug, Clone)]
pub struct EngineConfig {
    pub voicevox_path: Option<String>,
    pub voicevox_nemo_path: Option<String>,
    pub mascot_render_server_path: Option<String>,
    /// Log renderer snapshots around successful requests too (adds latency).
    pub mascot_render_snapshot_log: bool,
}

impl Default for EngineConfig {
    fn default() -> (c: Self)
        ensures
            c.voicevox_path is None,
            c.voicevox_nemo_path is None,
            c.mascot_render_server_path is None,
            !c.mascot_render_snapshot_log,
    {
        EngineConfig {
            voicevox_path: None,
            voicevox_nemo_path: None,
            mascot_render_server_path: None,
            mascot_render_snapshot_log: false,
        }
    }
}

/// A configured path: none when absent or empty.
pub open spec fn configured(p: Option<String>) -> Option<Seq<char>> {
    match p {
        Some(s) => if s@.len() == 0 {
            None
        } else {
            Some(s@)
        },
        None => None,
    }
}

pub open spec fn opt_view(p: Option<String>) -> Option<Seq<char>> {
    match p {
        Some(s) => Some(s@),
        None => None,
    }
}

fn non_empty(p: Option<String>) -> (r: Option<String>)
    ensures
        opt_view(r) == configured(p),
{
    match p {
        Some(s) => {
            let c = chars_of(s.as_str());
            if c.len() == 0 {
                None
            } else {
                Some(s)
            }
        },
        None => None,
    }
}

impl EngineConfig {
    /// The configuration from the raw values of `config.toml`: empty paths
    /// count as absent and snapshot logging is off unless set.
    pub fn from_raw(
        voicevox_path: Option<String>,
        voicevox_nemo_path: Option<String>,
        mascot_render_server_path: Option<String>,
        mascot_render_snapshot_log: Option<bool>,
    ) -> (c: EngineConfig)
        ensures
            opt_view(c.voicevox_path) == configured(voicevox_path),
            opt_view(c.voicevox_nemo_path) == configured(voicevox_nemo_path),
            opt_view(c.mascot_render_server_path) == configured(mascot_render_server_path),
            c.mascot_render_snapshot_log == match mascot_render_snapshot_log {
                Some(b) => b,
                None => false,
            },
    {
        EngineConfig {
            voicevox_path: non_empty(voicevox_path),
            voicevox_nemo_path: non_empty(voicevox_nemo_path),
            mascot_render_server_path: non_empty(mascot_render_server_path),
            mascot_render_snapshot_log: match mascot_render_snapshot_log {
                Some(b) => b,
                None => false,
            },
        }
    }
}

/// The engine's executable name: `run.exe` on Windows, `run` elsewhere.
pub open spec fn engine_exe_name(windows: bool) -> Seq<char> {
    if windows {
        "run.exe"@
    } else {
        "run"@
    }
}

/// The two engine executables under a VOICEVOX base directory.
pub open spec fn engine_candidates(base: Seq<char>, windows: bool) -> Seq<Seq<char>> {
    seq![
        spec_path_join(spec_path_join(base, "vv-engine"@), engine_exe_name(windows)),
        spec_path_join(base, engine_exe_name(windows)),
    ]
}

pub open spec fn opt_candidates(p: Option<String>, windows: bool) -> Seq<Seq<char>> {
    match p {
        Some(b) => engine_candidates(b@, windows),
        None => Seq::empty(),
    }
}

fn push_engine_candidates(v: &mut Vec<String>, base: &str, windows: bool)
    ensures
        crate::tag::strings_view(final(v)@) == crate::tag::strings_view(old(v)@) + engine_candidates(base@, windows),
{
    let ghost before = crate::tag::strings_view(v@);
    let exe = if windows {
        "run.exe"
    } else {
        "run"
    };
    let engine = path_join(base, "vv-engine");
    v.push(path_join(engine.as_str(), exe));
    v.push(path_join(base, exe));
    assert(crate::tag::strings_view(v@) =~= before + engine_candidates(base@, windows));
}

/// The engine executables to try, under the VOICEVOX path and then under the
/// VOICEVOX Nemo path, each as `vv-engine/run` and then `run` (`run.exe`
/// when `windows`).
pub fn configured_executable_candidates(config: &EngineConfig, windows: bool) -> (r: Vec<String>)
    ensures
        crate::tag::strings_view(r@) == opt_candidates(config.voicevox_path, windows) + opt_candidates(
            config.voicevox_nemo_path,
            windows,
        ),
{
    let mut v: Vec<String> = Vec::new();
    assert(crate::tag::strings_view(v@) =~= Seq::<Seq<char>>::empty());
    match &config.voicevox_path {
        Some(b) => push_engine_candidates(&mut v, b.as_str(), windows),
        None => {},
    }
    assert(crate::tag::strings_view(v@) =~= opt_candidates(config.voicevox_path, windows));
    match &config.voicevox_nemo_path {
        Some(b) => push_engine_candidates(&mut v, b.as_str(), windows),
        None => {},
    }
    assert(crate::tag::strings_view(v@) =~= opt_candidates(config.voicevox_path, windows) + opt_candidates(
        config.voicevox_nemo_path,
        windows,
    ));
    v
}

/// What `Path::file_name` returns for a path, as text.
pub uninterp spec fn path_file_name(p: Seq<char>) -> Option<Seq<char>>;

/// The last component of a path (wraps `Path::file_name` and `OsStr::to_str`).
#[verifier::external_body]
fn file_name_of(p: &str) -> (r: Option<String>)
    ensures
        match r {
            Some(n) => path_file_name(p@) == Some(n@),
            None => path_file_name(p@) is None,
        },
{
    std::path::Path::new(p).file_name().and_then(|n| n.to_str()).map(|n| n.to_owned())
}

/// The renderer executables to try for the configured path: the path itself,
/// and the executable inside it unless the path names the executable itself
/// (its last component is the executable's name) and is no directory.
pub fn configured_mascot_render_executable_candidates(config: &EngineConfig, configured_is_dir: bool) -> (r: Vec<String>)
    ensures
        match config.mascot_render_server_path {
            None => r@.len() == 0,
            Some(p) => if path_file_name(p@) == Some("mascot-render-server"@) && !configured_is_dir {
                crate::tag::strings_view(r@) == seq![p@]
            } else {
                crate::tag::strings_view(r@) == seq![p@, spec_path_join(p@, "mascot-render-server"@)]
            },
        },
{
    let mut v: Vec<String> = Vec::new();
    match &config.mascot_render_server_path {
        None => v,
        Some(p) => {
            v.push(p.clone());
            let names_exe = match file_name_of(p.as_str()) {
                Some(n) => {
                    let nc = chars_of(n.as_str());
                    let ec = chars_of(MASCOT_RENDER_SERVER_EXE_NAME);
                    crate::text::chars_eq(nc.as_slice(), ec.as_slice())
                },
                None => false,
            };
            if !(names_exe && !configured_is_dir) {
                v.push(path_join(p.as_str(), MASCOT_RENDER_SERVER_EXE_NAME));
            }
            assert(crate::tag::strings_view(v@) =~= if names_exe && !configured_is_dir {
                seq![p@]
            } else {
                seq![p@, spec_path_join(p@, "mascot-render-server"@)]
            });
            v
        },
    }
}

/// The engine address used when none is given.
pub open spec fn default_voicevox_url() -> Seq<char> {
    "http://localhost:50021"@
}

/// The address to wait on after starting the engine: the first of the
/// given addresses, or the default address when none is given.
pub open spec fn spec_wait_url(urls: Seq<Seq<char>>) -> Seq<char> {
    if urls.len() > 0 {
        urls[0]
    } else {
        default_voicevox_url()
    }
}

/// Picks the address to wait on after starting the engine (see
/// `spec_wait_url`).
pub fn select_wait_url_for_engine(base_urls: &[String]) -> (r: String)
    ensures
        r@ == spec_wait_url(crate::tag::strings_view(base_urls@)),
{
    if base_urls.len() > 0 {
        base_urls[0].clone()
    } else {
        "http://localhost:50021".to_owned()
    }
}

/// Where VOICEVOX is usually installed on Linux: `VOICEVOX/run` and
/// `voicevox/run` in the home directory, then under `/opt`.
pub open spec fn spec_linux_engine_candidates(home: Option<Seq<char>>) -> Seq<Seq<char>> {
    let in_home = match home {
        Some(h) => seq![
            spec_path_join(spec_path_join(h, "VOICEVOX"@), "run"@),
            spec_path_join(spec_path_join(h, "voicevox"@), "run"@),
        ],
        None => Seq::empty(),
    };
    in_home + seq!["/opt/VOICEVOX/run"@, "/opt/voicevox/run"@]
}

/// The usual Linux install places of the engine, given the home directory.
pub fn linux_engine_candidates(home: Option<&str>) -> (r: Vec<String>)
    ensures
        crate::tag::strings_view(r@) == spec_linux_engine_candidates(
            match home {
                Some(h) => Some(h@),
                None => None,
            },
        ),
{
    let mut v: Vec<String> = Vec::new();
    match home {
        Some(h) => {
            let a = path_join(h, "VOICEVOX");
            v.push(path_join(a.as_str(), "run"));
            let b = path_join(h, "voicevox");
            v.push(path_join(b.as_str(), "run"));
        },
        None => {},
    }
    v.push("/opt/VOICEVOX/run".to_owned());
    v.push("/opt/voicevox/run".to_owned());
    proof {
        let hv = match home {
            Some(h) => Some(h@),
            None => None,
        };
        assert(crate::tag::strings_view(v@) =~= spec_linux_engine_candidates(hv));
    }
    v
}

/// Where VOICEVOX is usually installed on Windows: `Programs/VOICEVOX/VOICEVOX.exe`
/// and `Programs/VOICEVOX/run.exe` in the local application data directory.
pub open spec fn spec_windows_engine_candidates(local_app_data: Option<Seq<char>>) -> Seq<Seq<char>> {
    match local_app_data {
        Some(d) => {
            let base = spec_path_join(spec_path_join(d, "Programs"@), "VOICEVOX"@);
            seq![spec_path_join(base, "VOICEVOX.exe"@), spec_path_join(base, "run.exe"@)]
        },
        None => Seq::empty(),
    }
}

/// The usual Windows install places of the engine.
pub fn windows_engine_candidates(local_app_data: Option<&str>) -> (r: Vec<String>)
    ensures
        crate::tag::strings_view(r@) == spec_windows_engine_candidates(
            match local_app_data {
                Some(d) => Some(d@),
                None => None,
            },
        ),
{
    let mut v: Vec<String> = Vec::new();
    match local_app_data {
        Some(d) => {
            let p = path_join(d, "Programs");
            let base = path_join(p.as_str(), "VOICEVOX");
            v.push(path_join(base.as_str(), "VOICEVOX.exe"));
            v.push(path_join(base.as_str(), "run.exe"));
        },
        None => {},
    }
    proof {
        let dv = match local_app_data {
            Some(d) => Some(d@),
            None => None,
        };
        assert(crate::tag::strings_view(v@) =~= spec_windows_engine_candidates(dv));
    }
    v
}

} // verus!
