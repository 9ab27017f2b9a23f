use gbfr_logs::layout_path::LayoutPath;
use gbfr_logs::portable::{
    app_root_from, config_dir, data_dir, env_path, hook_config_file, hook_log_file, prepare_plan, resolve_root,
    webview_data_dir, window_state_file, BUNDLE_IDENTIFIER,
};
use std::path::PathBuf;

const EXE_DIR: &str = "/opt/relink-logs";

fn render(path: &LayoutPath) -> PathBuf {
    let mut parts = path.components().iter();
    let mut out = PathBuf::from(parts.next().unwrap());
    for part in parts {
        out.push(part);
    }
    out
}

fn app_root() -> LayoutPath {
    resolve_root(None, false, &LayoutPath::from_root(EXE_DIR))
}

#[test]
fn root_is_absolute() {
    let exe = LayoutPath::from_root(EXE_DIR);
    for value in [None, Some(""), Some("portable"), Some("/data/gbfr")] {
        let root = app_root_from(value, &exe);
        assert!(render(&root).is_absolute(), "{:?}", render(&root));
    }
    assert!(render(&app_root()).is_absolute(), "{:?}", render(&app_root()));
}

#[test]
fn root_override_follows_path_absoluteness() {
    let exe = LayoutPath::from_root(EXE_DIR);
    assert_eq!(render(&app_root_from(Some("/data/gbfr"), &exe)), PathBuf::from("/data/gbfr"));
    assert_eq!(
        render(&app_root_from(Some("portable"), &exe)),
        PathBuf::from("/opt/relink-logs/portable")
    );
    assert_eq!(render(&app_root_from(None, &exe)), PathBuf::from(EXE_DIR));
}

#[test]
fn writable_paths_stay_under_the_root() {
    let root = app_root();
    for path in [
        data_dir(&root),
        config_dir(&root),
        hook_log_file(&root),
        window_state_file(&root),
        webview_data_dir(&root),
    ] {
        assert!(path.starts_with(&root), "{:?} escapes {:?}", path, root);
        assert!(render(&path).starts_with(render(&root)));
    }
}

#[test]
fn appdata_redirects_into_the_portable_tree() {
    let root = app_root();
    let expected = root.join("AppData");
    assert_eq!(render(&webview_data_dir(&root)), render(&expected.join("Local")));
    assert_eq!(
        render(&webview_data_dir(&root).join(BUNDLE_IDENTIFIER)),
        render(&expected.join("Local").join("com.false"))
    );
    assert_eq!(
        render(&window_state_file(&root).parent().unwrap()),
        render(&expected.join("Roaming"))
    );
    assert_eq!(
        render(&hook_config_file(&root)),
        render(&config_dir(&root).join("hook-config.json"))
    );
}

#[test]
fn data_dir_is_absolute_and_beside_the_executable() {
    let root = app_root();
    assert!(render(&data_dir(&root)).is_absolute());
    assert!(render(&data_dir(&root).join("logs.db")).is_absolute());
    assert_eq!(render(&data_dir(&root)), render(&root.join("data")));
}

#[test]
fn env_paths_use_forward_slashes() {
    let text = env_path(r"C:\games\relink-logs\data");
    assert_eq!(text, "C:/games/relink-logs/data");
    assert!(!text.ends_with('\\'));

    let verbatim = env_path(r"\\?\C:\games\relink-logs");
    assert_eq!(verbatim, "C:/games/relink-logs");
}

#[test]
fn env_path_keeps_network_verbatim_paths() {
    assert_eq!(env_path(r"\\?\UNC\server\share"), "//?/UNC/server/share");
    assert_eq!(env_path(r"\\?\"), "");
    assert_eq!(env_path(r"\\?"), "//?");
    assert_eq!(env_path("/already/forward"), "/already/forward");
    assert_eq!(env_path(""), "");
}

#[test]
fn env_path_is_idempotent() {
    for text in [r"\\?\C:\a\b", r"C:\x\", r"\\?\UNC\s\t", "plain"] {
        let once = env_path(text);
        assert_eq!(env_path(&once), once);
        assert!(!once.contains('\\'));
    }
}

#[test]
fn root_override_is_absolute_or_relative_to_exe() {
    let exe = LayoutPath::from_root(EXE_DIR);
    let absolute = resolve_root(Some("/data/gbfr"), true, &exe);
    assert_eq!(render(&absolute), PathBuf::from("/data/gbfr"));
    let relative = resolve_root(Some("portable"), false, &exe);
    assert_eq!(render(&relative), PathBuf::from("/opt/relink-logs/portable"));
    let empty = resolve_root(Some(""), true, &exe);
    assert_eq!(render(&empty), PathBuf::from(EXE_DIR));
}

#[test]
fn prepare_plan_redirects_appdata_and_creates_the_tree() {
    let root = app_root();
    let plan = prepare_plan(&root);
    let names: Vec<&str> = plan.env.iter().map(|a| a.name.as_str()).collect();
    assert_eq!(
        names,
        ["APPDATA", "LOCALAPPDATA", "WEBVIEW2_USER_DATA_FOLDER", "GBFR_LOGS_DATA_DIR"]
    );
    assert_eq!(render(&plan.env[0].path), PathBuf::from("/opt/relink-logs/AppData/Roaming"));
    assert_eq!(render(&plan.env[1].path), PathBuf::from("/opt/relink-logs/AppData/Local"));
    assert_eq!(
        render(&plan.env[2].path),
        PathBuf::from("/opt/relink-logs/AppData/Local/com.false")
    );
    assert_eq!(render(&plan.env[3].path), PathBuf::from(EXE_DIR));
    let dirs: Vec<PathBuf> = plan.dirs.iter().map(render).collect();
    assert_eq!(
        dirs,
        [
            PathBuf::from("/opt/relink-logs/data"),
            PathBuf::from("/opt/relink-logs/config"),
            PathBuf::from("/opt/relink-logs/AppData/Local"),
            PathBuf::from("/opt/relink-logs/AppData/Roaming"),
        ]
    );
}

#[test]
fn hook_files_sit_in_the_config_directory() {
    let root = app_root();
    assert_eq!(render(&hook_log_file(&root)), PathBuf::from("/opt/relink-logs/config/gbfr-logs.txt"));
    assert_eq!(
        render(&hook_config_file(&root)),
        PathBuf::from("/opt/relink-logs/config/hook-config.json")
    );
    assert!(root.parent().is_none());
}
