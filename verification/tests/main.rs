use voicevox_playground_tui::cli::{decorate_with_frame, frame_at, startup_mode, StartupMode};

fn args(items: &[&str]) -> Vec<String> {
    items.iter().map(|s| s.to_string()).collect()
}

#[test]
fn startup_mode_is_update_when_only_update_subcommand_is_provided() {
    assert_eq!(startup_mode(&args(&["vpt", "update"])), StartupMode::Update);
}

#[test]
fn startup_mode_is_check_when_only_check_subcommand_is_provided() {
    assert_eq!(startup_mode(&args(&["vpt", "check"])), StartupMode::Check);
}

#[test]
fn startup_mode_is_not_update_when_extra_args_are_present() {
    assert_eq!(startup_mode(&args(&["vpt", "update", "--clipboard"])), StartupMode::Clipboard);
}

#[test]
fn startup_mode_is_clipboard_when_clipboard_flag_is_present() {
    assert_eq!(startup_mode(&args(&["vpt", "--clipboard"])), StartupMode::Clipboard);
}

#[test]
fn startup_mode_is_normal_when_check_subcommand_has_extra_args() {
    assert_eq!(startup_mode(&args(&["vpt", "check", "--verbose"])), StartupMode::Normal);
}

#[test]
fn startup_mode_is_normal_without_update_or_clipboard() {
    assert_eq!(startup_mode(&args(&["vpt"])), StartupMode::Normal);
}

#[test]
fn frame_at_advances_by_interval() {
    assert_eq!(frame_at(std::time::Duration::from_millis(0).as_millis()), "-");
    assert_eq!(frame_at(std::time::Duration::from_millis(120).as_millis()), "\\");
    assert_eq!(frame_at(std::time::Duration::from_millis(240).as_millis()), "|");
    assert_eq!(frame_at(std::time::Duration::from_millis(360).as_millis()), "/");
    assert_eq!(frame_at(std::time::Duration::from_millis(480).as_millis()), "-");
}

#[test]
fn decorate_with_frame_prefixes_message() {
    assert_eq!(decorate_with_frame("[startup] waiting...", "|"), "| [startup] waiting...");
}
