//! Portable layout: every file the app writes lives under one root directory,
//! the executable's own unless `RELINK_LOGS_PORTABLE_DIR` names another.
//!
//! ```text
//! <root>/
//!   data/               logs.db, settings.db, logs/
//!   config/             hook-config.json, gbfr-logs.txt
//!   AppData/
//!     Local/com.false/    WebView2 user data
//!     Roaming/.window-state
//! ```
//!
//! This module decides every path of that tree and the environment the app
//! exports; rendering paths and touching the environment and the disk is left
//! to the caller.

use crate::hook_paths::str_opt_view;
use crate::layout_path::LayoutPath;
use crate::text::push_char;
use vstd::prelude::*;

verus! {

/// Overrides the portable root (default: the executable's own directory).
pub const ROOT_ENV: &'static str = "RELINK_LOGS_PORTABLE_DIR";

/// Bundle identifier; wry appends it to the local app-data directory.
pub const BUNDLE_IDENTIFIER: &'static str = "com.false";

/// Whether `text` is an absolute path under the build target's path rules
/// (a leading `/` on Unix; a drive or UNC prefix with a root on Windows),
/// the answer of `std::path::Path::is_absolute`.
pub uninterp spec fn path_absolute(text: Seq<char>) -> bool;

/// Calls `std::path::Path::is_absolute` on `text`. The answer depends on
/// the text alone (for a given build target), so it is named
/// [`path_absolute`]; what that rule is per platform is left unsaid.
#[verifier::external_body]
fn path_is_absolute(text: &str) -> (r: bool)
    ensures
        r == path_absolute(text@),
{
    std::path::Path::new(text).is_absolute()
}

/// The portable root chosen from the override's value: the exe directory
/// when the override is unset or empty, the value itself when it is
/// absolute, and the value joined onto the exe directory otherwise.
pub fn resolve_root(value: Option<&str>, value_is_absolute: bool, exe_dir: &LayoutPath) -> (r: LayoutPath)
    ensures
        (value is None || value->0@.len() == 0) ==> r@ == exe_dir@,
        (value is Some && value->0@.len() > 0 && value_is_absolute) ==> r@ == seq![value->0@],
        (value is Some && value->0@.len() > 0 && !value_is_absolute) ==> r@ == exe_dir@.push(value->0@),
{
    match value {
        Some(v) if v.unicode_len() > 0 => {
            if value_is_absolute {
                LayoutPath::from_root(v)
            } else {
                exe_dir.join(v)
            }
        },
        _ => exe_dir.duplicate(),
    }
}

/// Root of every writable file: the exe directory unless the override's
/// value names another. An absolute value is the root itself; a relative
/// one resolves against the exe directory.
pub fn app_root_from(value: Option<&str>, exe_dir: &LayoutPath) -> (r: LayoutPath)
    ensures
        r@ == spec_app_root(str_opt_view(value), exe_dir@),
{
    let absolute = match value {
        Some(v) => path_is_absolute(v),
        None => false,
    };
    resolve_root(value, absolute, exe_dir)
}

/// The portable root for the override's value and the exe directory: the
/// exe directory when the value is unset or empty, the value itself when it
/// is absolute, the value joined onto the exe directory otherwise.
pub open spec fn spec_app_root(value: Option<Seq<char>>, exe_dir: Seq<Seq<char>>) -> Seq<Seq<char>> {
    match value {
        Some(v) => if v.len() == 0 {
            exe_dir
        } else if path_absolute(v) {
            seq![v]
        } else {
            exe_dir.push(v)
        },
        None => exe_dir,
    }
}

/// A layout path is absolute when its root is: the names joined onto it are
/// plain relative names.
pub open spec fn layout_absolute(p: Seq<Seq<char>>) -> bool {
    p.len() > 0 && path_absolute(p[0])
}

/// With an absolute executable directory the portable root is absolute,
/// whatever the override says: an absolute override is kept, a relative one
/// resolves against the executable directory.
pub proof fn lemma_root_is_absolute(value: Option<Seq<char>>, exe_dir: Seq<Seq<char>>)
    requires
        layout_absolute(exe_dir),
    ensures
        layout_absolute(spec_app_root(value, exe_dir)),
{
}

/// Every path of the tree under an absolute root is absolute.
pub proof fn lemma_tree_paths_are_absolute(root: Seq<Seq<char>>)
    requires
        layout_absolute(root),
    ensures
        layout_absolute(data_dir_view(root)),
        layout_absolute(data_dir_view(root).push("logs.db"@)),
        layout_absolute(config_dir_view(root)),
        layout_absolute(hook_config_file_view(root)),
        layout_absolute(hook_log_file_view(root)),
        layout_absolute(window_state_file_view(root)),
        layout_absolute(local_view(root)),
        layout_absolute(roaming_view(root)),
        layout_absolute(local_view(root).push(BUNDLE_IDENTIFIER@)),
{
}

/// Databases (`logs.db`, `settings.db`) and the log plugin's `logs/` folder.
pub fn data_dir(root: &LayoutPath) -> (r: LayoutPath)
    ensures
        r@ == data_dir_view(root@),
{
    root.join("data")
}

/// Configuration the injected hook shares with the app.
pub fn config_dir(root: &LayoutPath) -> (r: LayoutPath)
    ensures
        r@ == config_dir_view(root@),
{
    root.join("config")
}

/// `hook-config.json`, read by the hook once per injection.
pub fn hook_config_file(root: &LayoutPath) -> (r: LayoutPath)
    ensures
        r@ == hook_config_file_view(root@),
{
    config_dir(root).join("hook-config.json")
}

/// The log the injected hook appends to.
pub fn hook_log_file(root: &LayoutPath) -> (r: LayoutPath)
    ensures
        r@ == hook_log_file_view(root@),
{
    config_dir(root).join("gbfr-logs.txt")
}

/// The roaming app-data directory of the portable tree.
pub fn roaming_dir(root: &LayoutPath) -> (r: LayoutPath)
    ensures
        r@ == roaming_view(root@),
{
    root.join("AppData").join("Roaming")
}

/// Window geometry, restored on the next launch.
pub fn window_state_file(root: &LayoutPath) -> (r: LayoutPath)
    ensures
        r@ == window_state_file_view(root@),
{
    roaming_dir(root).join(".window-state")
}

/// WebView2's user data root; wry appends [`BUNDLE_IDENTIFIER`].
pub fn webview_data_dir(root: &LayoutPath) -> (r: LayoutPath)
    ensures
        r@ == local_view(root@),
{
    root.join("AppData").join("Local")
}

/// One environment variable the app exports, with the path it points at.
#[derive(Debug)]
pub struct EnvAssignment {
    pub name: String,
    pub path: LayoutPath,
}

/// What preparing the portable tree does: the variables to export, in
/// order, and the directories to create, in order.
#[derive(Debug)]
pub struct PreparePlan {
    pub env: Vec<EnvAssignment>,
    pub dirs: Vec<LayoutPath>,
}

fn assignment(name: &str, path: LayoutPath) -> (a: EnvAssignment)
    ensures
        a.name@ == name@,
        a.path@ == path@,
{
    EnvAssignment { name: name.to_owned(), path }
}

/// The plan that redirects every AppData lookup into the portable tree:
/// `APPDATA` and `LOCALAPPDATA` point at the tree's AppData directories,
/// `WEBVIEW2_USER_DATA_FOLDER` at the bundle's folder inside the local one,
/// and `GBFR_LOGS_DATA_DIR` at the root, for the injected hook. The data,
/// config, local and roaming directories are created, in that order.
pub fn prepare_plan(root: &LayoutPath) -> (plan: PreparePlan)
    ensures
        plan.env@.len() == 4,
        plan.env@[0].name@ == "APPDATA"@,
        plan.env@[0].path@ == roaming_view(root@),
        plan.env@[1].name@ == "LOCALAPPDATA"@,
        plan.env@[1].path@ == local_view(root@),
        plan.env@[2].name@ == "WEBVIEW2_USER_DATA_FOLDER"@,
        plan.env@[2].path@ == local_view(root@).push(BUNDLE_IDENTIFIER@),
        plan.env@[3].name@ == "GBFR_LOGS_DATA_DIR"@,
        plan.env@[3].path@ == root@,
        plan.dirs@.len() == 4,
        plan.dirs@[0]@ == data_dir_view(root@),
        plan.dirs@[1]@ == config_dir_view(root@),
        plan.dirs@[2]@ == local_view(root@),
        plan.dirs@[3]@ == roaming_view(root@),
{
    let roaming = roaming_dir(root);
    let local = webview_data_dir(root);
    let mut env: Vec<EnvAssignment> = Vec::new();
    env.push(assignment("APPDATA", roaming.duplicate()));
    env.push(assignment("LOCALAPPDATA", local.duplicate()));
    env.push(assignment("WEBVIEW2_USER_DATA_FOLDER", local.join(BUNDLE_IDENTIFIER)));
    env.push(assignment("GBFR_LOGS_DATA_DIR", root.duplicate()));
    let mut dirs: Vec<LayoutPath> = Vec::new();
    dirs.push(data_dir(root));
    dirs.push(config_dir(root));
    dirs.push(local);
    dirs.push(roaming);
    PreparePlan { env, dirs }
}

/// The verbatim-path prefix `\\?\` that `current_exe` may report.
pub open spec fn verbatim_prefix() -> Seq<char> {
    seq!['\\', '\\', '?', '\\']
}

/// The network form `UNC\` that may follow a verbatim prefix.
pub open spec fn unc_prefix() -> Seq<char> {
    seq!['U', 'N', 'C', '\\']
}

/// `t` without a verbatim prefix, unless it is a verbatim network path.
pub open spec fn strip_verbatim(t: Seq<char>) -> Seq<char> {
    if verbatim_prefix().is_prefix_of(t) && !unc_prefix().is_prefix_of(t.skip(4)) {
        t.skip(4)
    } else {
        t
    }
}

/// `t` with every backslash turned into a forward slash.
pub open spec fn forward_slashed(t: Seq<char>) -> Seq<char> {
    t.map_values(|c: char| if c == '\\' { '/' } else { c })
}

/// The text of a path as the exported environment variables carry it.
pub open spec fn spec_env_path(t: Seq<char>) -> Seq<char> {
    forward_slashed(strip_verbatim(t))
}

fn has_prefix_at(text: &str, n: usize, at: usize, prefix: &str) -> (r: bool)
    requires
        n == text@.len(),
        prefix@.len() == 4,
    ensures
        r == (at + 4 <= n && prefix@.is_prefix_of(text@.skip(at as int))),
{
    if at > n || n - at < 4 {
        return false;
    }
    let mut k: usize = 0;
    while k < 4
        invariant
            k <= 4,
            at + 4 <= n,
            n == text@.len(),
            prefix@.len() == 4,
            forall|q: int| 0 <= q < k ==> prefix@[q] == text@[at + q],
        decreases 4 - k,
    {
        if text.get_char(at + k) != prefix.get_char(k) {
            assert(prefix@[k as int] != text@.skip(at as int).subrange(0, 4)[k as int]);
            return false;
        }
        k = k + 1;
    }
    assert(prefix@ =~= text@.skip(at as int).subrange(0, 4));
    true
}

/// Forward-slashed form of a path's text, for the environment variables the
/// app exports. A verbatim prefix `\\?\` is dropped, except before a network
/// path (`\\?\UNC\...`), and every backslash becomes `/`, so the value never
/// ends in a backslash that a later re-serialisation would read as an escape.
pub fn env_path(text: &str) -> (r: String)
    ensures
        r@ == spec_env_path(text@),
{
    let n = text.unicode_len();
    proof {
        reveal_strlit("\\\\?\\");
        reveal_strlit("UNC\\");
        assert("\\\\?\\"@ =~= verbatim_prefix());
        assert("UNC\\"@ =~= unc_prefix());
        assert(text@.skip(0) =~= text@);
    }
    let verbatim = has_prefix_at(text, n, 0, "\\\\?\\");
    let network = has_prefix_at(text, n, 4, "UNC\\");
    proof {
        if verbatim && !(n >= 8) {
            assert(!unc_prefix().is_prefix_of(text@.skip(4)));
        }
    }
    let start: usize = if verbatim && !network { 4 } else { 0 };
    let ghost stripped = text@.skip(start as int);
    assert(stripped == strip_verbatim(text@));
    let mut out = String::new();
    let mut i: usize = start;
    while i < n
        invariant
            start <= i <= n,
            n == text@.len(),
            stripped == text@.skip(start as int),
            out@ =~= forward_slashed(stripped.take(i - start)),
        decreases n - i,
    {
        let c = text.get_char(i);
        let mapped = if c == '\\' { '/' } else { c };
        push_char(&mut out, mapped);
        assert(stripped.take(i + 1 - start) =~= stripped.take(i - start).push(c));
        i = i + 1;
    }
    assert(stripped.take(n - start) =~= stripped);
    out
}

/// An exported path never holds a backslash, so in particular it never ends
/// in one.
pub proof fn lemma_env_path_has_no_backslash(t: Seq<char>)
    ensures
        forall|i: int| 0 <= i < spec_env_path(t).len() ==> spec_env_path(t)[i] != '\\',
        spec_env_path(t).len() > 0 ==> spec_env_path(t).last() != '\\',
{
}

/// Exporting is idempotent: a value that was already exported comes back
/// unchanged.
pub proof fn lemma_env_path_idempotent(t: Seq<char>)
    ensures
        spec_env_path(spec_env_path(t)) == spec_env_path(t),
{
    let u = spec_env_path(t);
    if verbatim_prefix().is_prefix_of(u) {
        assert(u[0] == verbatim_prefix()[0]);
    }
    assert(strip_verbatim(u) == u);
    assert(forward_slashed(u) =~= u);
}

/// `root/AppData/Local`.
pub open spec fn local_view(root: Seq<Seq<char>>) -> Seq<Seq<char>> {
    root.push("AppData"@).push("Local"@)
}

/// `root/AppData/Roaming`.
pub open spec fn roaming_view(root: Seq<Seq<char>>) -> Seq<Seq<char>> {
    root.push("AppData"@).push("Roaming"@)
}

/// `root/data`.
pub open spec fn data_dir_view(root: Seq<Seq<char>>) -> Seq<Seq<char>> {
    root.push("data"@)
}

/// `root/config`.
pub open spec fn config_dir_view(root: Seq<Seq<char>>) -> Seq<Seq<char>> {
    root.push("config"@)
}

/// `root/config/hook-config.json`.
pub open spec fn hook_config_file_view(root: Seq<Seq<char>>) -> Seq<Seq<char>> {
    config_dir_view(root).push("hook-config.json"@)
}

/// `root/config/gbfr-logs.txt`.
pub open spec fn hook_log_file_view(root: Seq<Seq<char>>) -> Seq<Seq<char>> {
    config_dir_view(root).push("gbfr-logs.txt"@)
}

/// `root/AppData/Roaming/.window-state`.
pub open spec fn window_state_file_view(root: Seq<Seq<char>>) -> Seq<Seq<char>> {
    roaming_view(root).push(".window-state"@)
}

/// Every path the app writes lies strictly inside the portable root: none of
/// them escapes into a user profile or any other directory.
pub proof fn lemma_writable_paths_stay_under_root(root: Seq<Seq<char>>)
    ensures
        root.is_prefix_of(data_dir_view(root)),
        root.is_prefix_of(config_dir_view(root)),
        root.is_prefix_of(hook_config_file_view(root)),
        root.is_prefix_of(hook_log_file_view(root)),
        root.is_prefix_of(window_state_file_view(root)),
        root.is_prefix_of(local_view(root)),
        root.is_prefix_of(roaming_view(root)),
        root.is_prefix_of(local_view(root).push(BUNDLE_IDENTIFIER@)),
{
    assert(root =~= data_dir_view(root).subrange(0, root.len() as int));
    assert(root =~= config_dir_view(root).subrange(0, root.len() as int));
    assert(root =~= hook_config_file_view(root).subrange(0, root.len() as int));
    assert(root =~= hook_log_file_view(root).subrange(0, root.len() as int));
    assert(root =~= window_state_file_view(root).subrange(0, root.len() as int));
    assert(root =~= local_view(root).subrange(0, root.len() as int));
    assert(root =~= roaming_view(root).subrange(0, root.len() as int));
    assert(root =~= local_view(root).push(BUNDLE_IDENTIFIER@).subrange(0, root.len() as int));
}

/// Both AppData directories sit in the tree's own `AppData`: the window state
/// file's directory is the roaming one, the WebView2 folder is the bundle's
/// folder in the local one, and the hook's config file lies in the config
/// directory.
pub proof fn lemma_appdata_redirects_into_tree(root: Seq<Seq<char>>)
    ensures
        window_state_file_view(root).drop_last() == roaming_view(root),
        local_view(root).drop_last() == root.push("AppData"@),
        roaming_view(root).drop_last() == root.push("AppData"@),
        hook_config_file_view(root).drop_last() == config_dir_view(root),
        hook_log_file_view(root).drop_last() == config_dir_view(root),
{
    assert(window_state_file_view(root).drop_last() =~= roaming_view(root));
    assert(local_view(root).drop_last() =~= root.push("AppData"@));
    assert(roaming_view(root).drop_last() =~= root.push("AppData"@));
    assert(hook_config_file_view(root).drop_last() =~= config_dir_view(root));
    assert(hook_log_file_view(root).drop_last() =~= config_dir_view(root));
}

} // verus!
