//! Application configuration and the paths derived from it.
use vstd::prelude::*;
use vstd::string::*;

use crate::text::{chars_of, join_path, joined_path, string_from_chars};

verus! {

/// Filesystem sync preferences.
#[derive(Debug)]
pub struct SyncConfig {
    /// Sync the filesystem to the database when the TUI starts.
    pub auto_sync_on_startup: bool,
    /// Ask before deleting database entries during a sync.
    pub confirm_before_sync_delete: bool,
}

/// UI preferences.
#[derive(Debug)]
pub struct UiConfig {
    /// Tick rate of the UI loop in milliseconds.
    pub tick_rate_ms: u64,
}

/// Application configuration.
#[derive(Debug)]
pub struct Config {
    /// Directory that holds the CTF workspaces.
    pub default_ctf_directory: Option<String>,
    /// Currently active CTF id.
    pub active_ctf_id: Option<i64>,
    /// Currently active CTF directory.
    pub active_ctf_path: Option<String>,
    /// Filesystem sync preferences.
    pub sync: SyncConfig,
    /// UI preferences.
    pub ui: UiConfig,
}

impl Default for SyncConfig {
    fn default() -> (r: SyncConfig)
        ensures
            r.auto_sync_on_startup,
            r.confirm_before_sync_delete,
    {
        SyncConfig { auto_sync_on_startup: true, confirm_before_sync_delete: true }
    }
}

impl Default for Config {
    fn default() -> (r: Config)
        ensures
            r.default_ctf_directory is None,
            r.active_ctf_id is None,
            r.active_ctf_path is None,
            r.sync.auto_sync_on_startup,
            r.sync.confirm_before_sync_delete,
            r.ui.tick_rate_ms == 250,
    {
        Config {
            default_ctf_directory: None,
            active_ctf_id: None,
            active_ctf_path: None,
            sync: SyncConfig::default(),
            ui: UiConfig { tick_rate_ms: 250 },
        }
    }
}

/// The message given when no CTF is active.
pub open spec fn no_active_ctf_message() -> Seq<char> {
    "No active CTF selected. Run 'ctf' to select one."@
}

impl Config {
    /// The same configuration with the given CTF active in the given directory.
    pub open spec fn with_active_ctf(self, ctf_id: i64, path: String) -> Config {
        Config { active_ctf_id: Some(ctf_id), active_ctf_path: Some(path), ..self }
    }

    /// Records the active CTF (the caller writes the configuration file).
    pub fn set_active_ctf(&mut self, ctf_id: i64, path: String)
        ensures
            *final(self) == old(self).with_active_ctf(ctf_id, path),
    {
        self.active_ctf_id = Some(ctf_id);
        self.active_ctf_path = Some(path);
    }

    /// The active CTF directory, or an error when none is active.
    pub fn get_active_ctf_path(&self) -> (r: Result<String, String>)
        ensures
            self.active_ctf_path matches Some(p) ==> r == Ok::<String, String>(p),
            self.active_ctf_path is None ==> (r matches Err(e) && e@ == no_active_ctf_message()),
    {
        match &self.active_ctf_path {
            Some(p) => Ok(p.clone()),
            None => Err(String::from_str("No active CTF selected. Run 'ctf' to select one.")),
        }
    }
}

/// `dirs::home_dir`: the user's home directory, if it can be determined. It
/// reads the environment, so nothing is claimed of the answer.
#[verifier::external_body]
fn home_dir() -> (r: Option<String>) {
    dirs::home_dir().map(|p| p.to_string_lossy().into_owned())
}

/// `dirs::config_dir`: the user's configuration directory, if it can be
/// determined. It reads the environment, so nothing is claimed of the answer.
#[verifier::external_body]
fn config_dir() -> (r: Option<String>) {
    dirs::config_dir().map(|p| p.to_string_lossy().into_owned())
}

/// `dirs::data_local_dir`: the user's local data directory, if it can be
/// determined. It reads the environment, so nothing is claimed of the answer.
#[verifier::external_body]
fn data_local_dir() -> (r: Option<String>) {
    dirs::data_local_dir().map(|p| p.to_string_lossy().into_owned())
}

/// The message given when the home directory is unknown.
pub open spec fn no_home_message() -> Seq<char> {
    "Failed to determine home directory"@
}

/// True when a path starts with "~/".
pub open spec fn starts_with_tilde_slash(path: Seq<char>) -> bool {
    path.len() >= 2 && path[0] == '~' && path[1] == '/'
}

/// True when a path is exactly "~".
pub open spec fn is_bare_tilde(path: Seq<char>) -> bool {
    path.len() == 1 && path[0] == '~'
}

/// Expands a leading "~" of `path` with the given home directory: "~/rest"
/// becomes home joined with "rest", "~" becomes home, and any other path is
/// kept. An unknown home directory is an error only when it is needed.
pub fn expand_tilde_with_home(path: &str, home: Option<String>) -> (r: Result<String, String>)
    ensures
        starts_with_tilde_slash(path@) ==> match home {
            Some(h) => r matches Ok(p) && p@ == joined_path(h@, path@.skip(2)),
            None => r matches Err(e) && e@ == no_home_message(),
        },
        is_bare_tilde(path@) ==> match home {
            Some(h) => r == Ok::<String, String>(h),
            None => r matches Err(e) && e@ == no_home_message(),
        },
        !starts_with_tilde_slash(path@) && !is_bare_tilde(path@) ==> (r matches Ok(p) && p@
            == path@),
{
    let chars = chars_of(path);
    let tilde_slash = chars.len() >= 2 && chars[0] == '~' && chars[1] == '/';
    let bare = chars.len() == 1 && chars[0] == '~';
    if tilde_slash || bare {
        match home {
            None => Err(String::from_str("Failed to determine home directory")),
            Some(h) => {
                if tilde_slash {
                    let mut rest: Vec<char> = Vec::new();
                    let mut i: usize = 2;
                    while i < chars.len()
                        invariant
                            2 <= i <= chars.len(),
                            rest@ == chars@.subrange(2, i as int),
                        decreases chars.len() - i,
                    {
                        rest.push(chars[i]);
                        i = i + 1;
                    }
                    assert(chars@.subrange(2, chars.len() as int) =~= path@.skip(2));
                    let rest_s = string_from_chars(&rest);
                    Ok(join_path(h.as_str(), rest_s.as_str()))
                } else {
                    Ok(h)
                }
            },
        }
    } else {
        Ok(String::from_str(path))
    }
}

/// Expands a leading "~" in a path to the user's home directory.
pub fn expand_tilde(path: &str) -> (r: Result<String, String>)
    ensures
        !starts_with_tilde_slash(path@) && !is_bare_tilde(path@) ==> (r matches Ok(p) && p@
            == path@),
        starts_with_tilde_slash(path@) ==> (r matches Ok(p) ==> exists|h: Seq<char>|
            p@ == joined_path(h, path@.skip(2))),
        r matches Err(e) ==> e@ == no_home_message(),
{
    let chars = chars_of(path);
    if (chars.len() >= 2 && chars[0] == '~' && chars[1] == '/') || (chars.len() == 1 && chars[0]
        == '~') {
        let home = home_dir();
        let ghost home_g = home;
        let r = expand_tilde_with_home(path, home);
        proof {
            if let Some(h) = home_g {
                if starts_with_tilde_slash(path@) {
                    assert(r matches Ok(p) && p@ == joined_path(h@, path@.skip(2)));
                }
            }
        }
        r
    } else {
        expand_tilde_with_home(path, None)
    }
}

/// The message given when the configuration directory is unknown.
pub open spec fn no_config_dir_message() -> Seq<char> {
    "Failed to determine config directory"@
}

/// The message given when the data directory is unknown.
pub open spec fn no_data_dir_message() -> Seq<char> {
    "Failed to determine data directory"@
}

/// The configuration file inside the given configuration directory:
/// `<dir>/ctf-man/config.toml`.
pub fn config_path_in(config_dir: Option<String>) -> (r: Result<String, String>)
    ensures
        config_dir matches Some(d) ==> (r matches Ok(p) && p@ == joined_path(
            joined_path(d@, "ctf-man"@),
            "config.toml"@,
        )),
        config_dir is None ==> (r matches Err(e) && e@ == no_config_dir_message()),
{
    match config_dir {
        None => Err(String::from_str("Failed to determine config directory")),
        Some(d) => {
            let app_dir = join_path(d.as_str(), "ctf-man");
            Ok(join_path(app_dir.as_str(), "config.toml"))
        },
    }
}

/// The path of the configuration file.
pub fn get_config_path() -> (r: Result<String, String>)
    ensures
        r matches Ok(p) ==> exists|d: Seq<char>| p@ == joined_path(
            joined_path(d, "ctf-man"@),
            "config.toml"@,
        ),
        r matches Err(e) ==> e@ == no_config_dir_message(),
{
    let dir = config_dir();
    let ghost dir_g = dir;
    let r = config_path_in(dir);
    proof {
        if let Some(d) = dir_g {
            assert(r matches Ok(p) && p@ == joined_path(joined_path(d@, "ctf-man"@), "config.toml"@));
        }
    }
    r
}

/// The application's data directory inside the given local data directory:
/// `<dir>/ctf-man` (the caller creates it).
pub fn data_dir_in(data_local_dir: Option<String>) -> (r: Result<String, String>)
    ensures
        data_local_dir matches Some(d) ==> (r matches Ok(p) && p@ == joined_path(d@, "ctf-man"@)),
        data_local_dir is None ==> (r matches Err(e) && e@ == no_data_dir_message()),
{
    match data_local_dir {
        None => Err(String::from_str("Failed to determine data directory")),
        Some(d) => Ok(join_path(d.as_str(), "ctf-man")),
    }
}

/// The path of the application's data directory (the caller creates it).
pub fn get_data_dir() -> (r: Result<String, String>)
    ensures
        r matches Ok(p) ==> exists|d: Seq<char>| p@ == joined_path(d, "ctf-man"@),
        r matches Err(e) ==> e@ == no_data_dir_message(),
{
    let dir = data_local_dir();
    let ghost dir_g = dir;
    let r = data_dir_in(dir);
    proof {
        if let Some(d) = dir_g {
            assert(r matches Ok(p) && p@ == joined_path(d@, "ctf-man"@));
        }
    }
    r
}

/// The database file inside the data directory: `<data_dir>/ctf.db`.
pub fn get_database_path(data_dir: &str) -> (r: String)
    ensures
        r@ == joined_path(data_dir@, "ctf.db"@),
{
    join_path(data_dir, "ctf.db")
}

} // verus!
