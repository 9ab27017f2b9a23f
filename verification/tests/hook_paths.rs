use gbfr_logs::hook_paths::{config_dir, env_config_dir, hook_config_file, log_file, module_file_name};
use gbfr_logs::layout_path::LayoutPath;
use gbfr_logs::portable;
use std::path::PathBuf;

fn render(path: &LayoutPath) -> PathBuf {
    let mut parts = path.components().iter();
    let mut out = PathBuf::from(parts.next().unwrap());
    for part in parts {
        out.push(part);
    }
    out
}

#[test]
fn an_empty_env_var_is_ignored() {
    assert!(env_config_dir(Some("")).is_none());
    assert!(env_config_dir(None).is_none());
}

#[test]
fn a_set_env_var_names_the_config_directory() {
    assert_eq!(
        env_config_dir(Some(r"D:\portable\relink-logs")).map(|p| render(&p)),
        Some(PathBuf::from(r"D:\portable\relink-logs").join("config"))
    );
}

#[test]
fn the_module_directory_is_the_fallback() {
    let hook_dir = LayoutPath::from_root("/games/gbfr");
    assert_eq!(
        config_dir(None, Some(&hook_dir)).map(|p| render(&p)),
        Some(PathBuf::from("/games/gbfr/config"))
    );
    assert_eq!(
        config_dir(Some(""), Some(&hook_dir)).map(|p| render(&p)),
        Some(PathBuf::from("/games/gbfr/config"))
    );
    assert_eq!(
        log_file(None, Some(&hook_dir)).map(|p| render(&p)),
        Some(PathBuf::from("/games/gbfr/config/gbfr-logs.txt"))
    );
    assert!(config_dir(None, None).is_none());
    assert!(hook_config_file(None, None).is_none());
    assert!(log_file(Some(""), None).is_none());
}

#[test]
fn the_env_var_wins_over_the_module_directory() {
    let hook_dir = LayoutPath::from_root("/games/gbfr");
    assert_eq!(
        hook_config_file(Some("/opt/relink-logs"), Some(&hook_dir)).map(|p| render(&p)),
        Some(PathBuf::from("/opt/relink-logs/config/hook-config.json"))
    );
}

#[test]
fn the_hook_reads_the_files_the_app_writes() {
    let root = LayoutPath::from_root("/opt/relink-logs");
    let hook_dir = LayoutPath::from_root("/games/gbfr");
    assert_eq!(
        hook_config_file(Some("/opt/relink-logs"), Some(&hook_dir)).map(|p| render(&p)),
        Some(render(&portable::hook_config_file(&root)))
    );
    assert_eq!(
        log_file(Some("/opt/relink-logs"), None).map(|p| render(&p)),
        Some(render(&portable::hook_log_file(&root)))
    );
}

#[test]
fn module_names_are_taken_only_when_whole() {
    let buffer = [0x43u16, 0x3a, 0x5c, 0x68, 0, 0];
    assert_eq!(module_file_name(&buffer, 4), Some(vec![0x43, 0x3a, 0x5c, 0x68]));
    assert_eq!(module_file_name(&buffer, 0), None);
    // A filled buffer means the name was cut off.
    assert_eq!(module_file_name(&buffer, 6), None);
    assert_eq!(module_file_name(&buffer, 7), None);
}
