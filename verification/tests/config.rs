use voicevox_playground_tui::config::{
    config_path, configured_executable_candidates, configured_mascot_render_executable_candidates,
    default_mascot_data_root, history_dir, history_path_for_tab, linux_engine_candidates, mascot_data_root,
    select_wait_url_for_engine, session_state_path, windows_engine_candidates, EngineConfig,
    MASCOT_RENDER_SERVER_EXE_NAME,
};

fn config_with_server_path(path: &str) -> EngineConfig {
    EngineConfig { mascot_render_server_path: Some(path.to_string()), ..EngineConfig::default() }
}

#[test]
fn configured_mascot_render_executable_candidates_supports_directory_or_executable_path() {
    let configured_path = "/opt/mascot-render".to_string();
    let config = config_with_server_path(&configured_path);
    let candidates = configured_mascot_render_executable_candidates(&config, false);
    assert_eq!(candidates[0], configured_path);
    assert_eq!(candidates[1], "/opt/mascot-render/mascot-render-server");
}

#[test]
fn configured_mascot_render_executable_candidates_keeps_direct_executable_path() {
    let configured_path = "/opt/bin/mascot-render-server".to_string();
    let config = config_with_server_path(&configured_path);
    assert_eq!(configured_mascot_render_executable_candidates(&config, false), vec![configured_path]);
}

#[test]
fn configured_mascot_render_executable_candidates_supports_directory_named_like_executable() {
    let configured_path = "/tmp/vpt-mascot-path/mascot-render-server".to_string();
    let config = config_with_server_path(&configured_path);
    let candidates = configured_mascot_render_executable_candidates(&config, true);
    assert_eq!(candidates[0], configured_path);
    let joined = std::path::Path::new(&candidates[0]).join(MASCOT_RENDER_SERVER_EXE_NAME);
    assert_eq!(candidates[1], joined.to_string_lossy());
}

#[test]
fn configured_mascot_render_executable_candidates_empty_without_path() {
    assert!(configured_mascot_render_executable_candidates(&EngineConfig::default(), false).is_empty());
}

#[test]
fn from_raw_reads_voicevox_keys() {
    let config = EngineConfig::from_raw(
        Some("/opt/voicevox".to_string()),
        Some("/opt/voicevox-nemo".to_string()),
        Some("/opt/mascot-render-server".to_string()),
        None,
    );
    assert_eq!(config.voicevox_path.as_deref(), Some("/opt/voicevox"));
    assert_eq!(config.voicevox_nemo_path.as_deref(), Some("/opt/voicevox-nemo"));
    assert_eq!(config.mascot_render_server_path.as_deref(), Some("/opt/mascot-render-server"));
    assert!(!config.mascot_render_snapshot_log);
}

#[test]
fn from_raw_treats_empty_strings_as_none() {
    let config = EngineConfig::from_raw(Some(String::new()), Some(String::new()), Some(String::new()), Some(true));
    assert_eq!(config.voicevox_path, None);
    assert_eq!(config.voicevox_nemo_path, None);
    assert_eq!(config.mascot_render_server_path, None);
    assert!(config.mascot_render_snapshot_log);
}

#[test]
fn engine_candidates_are_listed_for_both_paths() {
    let config = EngineConfig::from_raw(Some("/a".to_string()), Some("/b/".to_string()), None, None);
    assert_eq!(
        configured_executable_candidates(&config, false),
        vec!["/a/vv-engine/run", "/a/run", "/b/vv-engine/run", "/b/run"]
    );
    assert!(configured_executable_candidates(&EngineConfig::default(), false).is_empty());
}

#[test]
fn engine_candidates_on_windows_are_run_exe() {
    let config = EngineConfig::from_raw(Some("/a".to_string()), None, None, None);
    assert_eq!(configured_executable_candidates(&config, true), vec!["/a/vv-engine/run.exe", "/a/run.exe"]);
}

#[test]
fn joined_paths_follow_path_join() {
    assert_eq!(history_dir(Some("/a")), "/a/voicevox-playground-tui");
    assert_eq!(history_dir(Some("/a/")), "/a/voicevox-playground-tui");
    assert_eq!(history_dir(None), "./voicevox-playground-tui");
}

#[test]
fn data_paths_live_in_the_history_dir() {
    let dir = history_dir(Some("/home/u/.local/share"));
    assert_eq!(dir, "/home/u/.local/share/voicevox-playground-tui");
    assert_eq!(history_dir(None), "./voicevox-playground-tui");
    assert_eq!(config_path(&dir), format!("{dir}/config.toml"));
    assert_eq!(session_state_path(&dir), format!("{dir}/history.json"));
    assert_eq!(history_path_for_tab(&dir, 0), format!("{dir}/history.txt"));
    assert_eq!(history_path_for_tab(&dir, 2), format!("{dir}/history3.txt"));
    assert_eq!(default_mascot_data_root(Some("/d")), Some("/d/mascot-render-server".to_string()));
    assert_eq!(default_mascot_data_root(None), None);
}

fn local_data_dir() -> Option<String> {
    dirs::data_local_dir().map(|p| p.to_str().unwrap().to_string())
}

#[test]
fn mascot_render_default_mascot_data_root_uses_local_data_dir() {
    let base = local_data_dir();
    assert_eq!(
        default_mascot_data_root(base.as_deref()),
        dirs::data_local_dir().map(|base| base.join("mascot-render-server").to_str().unwrap().to_string())
    );
}

#[test]
fn data_default_mascot_data_root_uses_local_data_dir() {
    assert_eq!(default_mascot_data_root(Some("/home/u/.local/share")).as_deref(), Some("/home/u/.local/share/mascot-render-server"));
    assert_eq!(default_mascot_data_root(None), None);
    let base = local_data_dir();
    assert_eq!(
        default_mascot_data_root(base.as_deref()),
        dirs::data_local_dir().map(|base| base.join("mascot-render-server").to_str().unwrap().to_string())
    );
}

#[test]
fn mascot_render_mascot_data_root_resolves_relative_env_under_local_data_dir() {
    let relative_path = std::path::PathBuf::from("voicevox-playground-tui").join("logs");
    let base = local_data_dir();
    assert_eq!(
        mascot_data_root(relative_path.to_str(), base.as_deref()),
        dirs::data_local_dir().map(|base| base.join(&relative_path).to_str().unwrap().to_string())
    );
}

#[test]
fn data_mascot_data_root_resolves_relative_env_under_local_data_dir() {
    let relative_path = std::path::PathBuf::from("voicevox-playground-tui").join("logs");
    let base = local_data_dir();
    assert_eq!(
        mascot_data_root(relative_path.to_str(), base.as_deref()),
        dirs::data_local_dir().map(|base| base.join(&relative_path).to_str().unwrap().to_string())
    );
    assert_eq!(mascot_data_root(Some("/srv/mascot"), Some("/data")).as_deref(), Some("/srv/mascot"));
    assert_eq!(mascot_data_root(Some("rel"), None), None);
    assert_eq!(mascot_data_root(None, Some("/data")).as_deref(), Some("/data/mascot-render-server"));
}

#[test]
fn wait_url_is_the_first_address() {
    let urls = vec!["http://localhost:50021".to_string(), "http://localhost:50121".to_string()];
    assert_eq!(select_wait_url_for_engine(&urls), "http://localhost:50021");
    assert_eq!(select_wait_url_for_engine(&urls[1..]), "http://localhost:50121");
    assert_eq!(select_wait_url_for_engine(&[]), "http://localhost:50021");
}

#[test]
fn platform_engine_candidates() {
    assert_eq!(
        linux_engine_candidates(Some("/home/u")),
        vec!["/home/u/VOICEVOX/run", "/home/u/voicevox/run", "/opt/VOICEVOX/run", "/opt/voicevox/run"]
    );
    assert_eq!(linux_engine_candidates(None), vec!["/opt/VOICEVOX/run", "/opt/voicevox/run"]);
    assert_eq!(
        windows_engine_candidates(Some("C:/Users/u/AppData/Local")),
        vec![
            "C:/Users/u/AppData/Local/Programs/VOICEVOX/VOICEVOX.exe",
            "C:/Users/u/AppData/Local/Programs/VOICEVOX/run.exe"
        ]
    );
    assert!(windows_engine_candidates(None).is_empty());
}
