//! Where the injected hook reads and writes its files.
//!
//! Two sources name the app's portable tree, in order:
//!
//! 1. `GBFR_LOGS_DATA_DIR`, the app's portable root, inherited by the game the
//!    app launches and so by the hook injected into it;
//! 2. the directory of the hook module itself, which is the app's folder.
//!
//! Both are best-effort: when neither resolves there is simply no config
//! directory, and the hook runs without its log.

use crate::layout_path::LayoutPath;
use crate::portable;
use vstd::prelude::*;

verus! {

/// The name of the variable through which the app hands its root to the hook.
pub const DATA_DIR_ENV: &'static str = "GBFR_LOGS_DATA_DIR";

/// The view of an optional path.
pub open spec fn path_opt_view(p: Option<LayoutPath>) -> Option<Seq<Seq<char>>> {
    match p {
        Some(p) => Some(p@),
        None => None,
    }
}

/// The view of an optional piece of text.
pub open spec fn str_opt_view(s: Option<&str>) -> Option<Seq<char>> {
    match s {
        Some(s) => Some(s@),
        None => None,
    }
}

/// The config directory named by the variable's value: `<value>/config`,
/// or none when the variable is unset or empty.
pub open spec fn spec_env_config_dir(value: Option<Seq<char>>) -> Option<Seq<Seq<char>>> {
    match value {
        Some(v) => if v.len() == 0 { None } else { Some(seq![v, "config"@]) },
        None => None,
    }
}

/// The hook's config directory: the variable's when it names one, else the
/// `config` directory beside the hook module, if that was found.
pub open spec fn spec_config_dir(
    value: Option<Seq<char>>,
    hook_dir: Option<Seq<Seq<char>>>,
) -> Option<Seq<Seq<char>>> {
    match spec_env_config_dir(value) {
        Some(dir) => Some(dir),
        None => match hook_dir {
            Some(dir) => Some(dir.push("config"@)),
            None => None,
        },
    }
}

/// `name` inside the hook's config directory, if there is one.
pub open spec fn spec_config_file(
    value: Option<Seq<char>>,
    hook_dir: Option<Seq<Seq<char>>>,
    name: Seq<char>,
) -> Option<Seq<Seq<char>>> {
    match spec_config_dir(value, hook_dir) {
        Some(dir) => Some(dir.push(name)),
        None => None,
    }
}

/// The `GBFR_LOGS_DATA_DIR` branch: an empty value must not win over the
/// module-path fallback, or a launcher that exports the variable without
/// setting it would disable logging entirely.
pub fn env_config_dir(value: Option<&str>) -> (r: Option<LayoutPath>)
    ensures
        path_opt_view(r) == spec_env_config_dir(str_opt_view(value)),
{
    match value {
        Some(v) => {
            if v.unicode_len() == 0 {
                None
            } else {
                let dir = LayoutPath::from_root(v).join("config");
                assert(dir@ =~= seq![v@, "config"@]);
                Some(dir)
            }
        },
        None => None,
    }
}

/// The app's portable `config/` directory, from the variable's value or,
/// failing that, from the hook module's own directory.
pub fn config_dir(value: Option<&str>, hook_dir: Option<&LayoutPath>) -> (r: Option<LayoutPath>)
    ensures
        path_opt_view(r) == spec_config_dir(
            str_opt_view(value),
            match hook_dir {
                Some(d) => Some(d@),
                None => None,
            },
        ),
{
    if let Some(dir) = env_config_dir(value) {
        return Some(dir);
    }
    match hook_dir {
        Some(d) => Some(d.join("config")),
        None => None,
    }
}

/// `hook-config.json`, where the app publishes the toggles the hook reads
/// once per injection.
pub fn hook_config_file(value: Option<&str>, hook_dir: Option<&LayoutPath>) -> (r: Option<LayoutPath>)
    ensures
        path_opt_view(r) == spec_config_file(
            str_opt_view(value),
            match hook_dir {
                Some(d) => Some(d@),
                None => None,
            },
            "hook-config.json"@,
        ),
{
    match config_dir(value, hook_dir) {
        Some(dir) => Some(dir.join("hook-config.json")),
        None => None,
    }
}

/// The hook's log file. Nothing here touches the disk.
pub fn log_file(value: Option<&str>, hook_dir: Option<&LayoutPath>) -> (r: Option<LayoutPath>)
    ensures
        path_opt_view(r) == spec_config_file(
            str_opt_view(value),
            match hook_dir {
                Some(d) => Some(d@),
                None => None,
            },
            "gbfr-logs.txt"@,
        ),
{
    match config_dir(value, hook_dir) {
        Some(dir) => Some(dir.join("gbfr-logs.txt")),
        None => None,
    }
}

/// The hook module's file name as the module-name query wrote it into
/// `buffer`, `len` UTF-16 units long: only when the query wrote something
/// and did not fill the whole buffer, which would mean the name was cut off.
pub fn module_file_name(buffer: &[u16], len: usize) -> (r: Option<Vec<u16>>)
    ensures
        r is Some <==> (0 < len && len < buffer@.len()),
        r is Some ==> r->0@ == buffer@.take(len as int),
{
    if len == 0 || len >= buffer.len() {
        return None;
    }
    let mut name: Vec<u16> = Vec::new();
    let mut i: usize = 0;
    while i < len
        invariant
            i <= len,
            len < buffer@.len(),
            name@ =~= buffer@.take(i as int),
        decreases len - i,
    {
        name.push(buffer[i]);
        i = i + 1;
    }
    Some(name)
}

/// In every branch the hook's files sit in its config directory: a file
/// exists exactly when the config directory does, and is that directory
/// with the file's name joined on. Without the variable, the directory is
/// `config` beside the hook module, so the config file and the log both
/// lie in `<module dir>/config`, where the app writes them.
pub proof fn lemma_files_sit_in_config_dir(
    value: Option<Seq<char>>,
    hook_dir: Option<Seq<Seq<char>>>,
    name: Seq<char>,
)
    ensures
        spec_config_file(value, hook_dir, name) is Some <==> spec_config_dir(value, hook_dir) is Some,
        spec_config_file(value, hook_dir, name) is Some ==> {
            &&& spec_config_file(value, hook_dir, name)->0.drop_last() == spec_config_dir(value, hook_dir)->0
            &&& spec_config_file(value, hook_dir, name)->0.last() == name
        },
        (value is None || value->0.len() == 0) && hook_dir is Some ==> spec_config_file(value, hook_dir, name)
            == Some(hook_dir->0.push("config"@).push(name)),
        spec_config_file(value, hook_dir, "hook-config.json"@) is Some ==> spec_config_file(
            value,
            hook_dir,
            "hook-config.json"@,
        )->0.drop_last() == spec_config_file(value, hook_dir, "gbfr-logs.txt"@)->0.drop_last(),
{
    if spec_config_dir(value, hook_dir) is Some {
        let d = spec_config_dir(value, hook_dir)->0;
        assert(d.push(name).drop_last() =~= d);
        assert(d.push("hook-config.json"@).drop_last() =~= d);
        assert(d.push("gbfr-logs.txt"@).drop_last() =~= d);
    }
}

/// When the app hands its root to the hook through the variable, the hook
/// reads and logs into exactly the files the app's layout names for that
/// root, whatever the hook's own directory is.
pub proof fn lemma_hook_agrees_with_app_layout(root: Seq<char>, hook_dir: Option<Seq<Seq<char>>>)
    requires
        root.len() > 0,
    ensures
        spec_config_dir(Some(root), hook_dir) == Some(portable::config_dir_view(seq![root])),
        spec_config_file(Some(root), hook_dir, "hook-config.json"@) == Some(
            portable::hook_config_file_view(seq![root]),
        ),
        spec_config_file(Some(root), hook_dir, "gbfr-logs.txt"@) == Some(
            portable::hook_log_file_view(seq![root]),
        ),
{
    assert(seq![root, "config"@] =~= seq![root].push("config"@));
}

} // verus!
