//! A product's configuration locations and environment credentials.

use vstd::prelude::*;
use vstd::string::*;

use std::path::PathBuf;

use crate::account::Account;
use crate::paths::{
    join_bytes, path_bytes, path_from, path_join, paths_view, text_bytes,
};
use crate::rate::opt_str;

verus! {

/// `dirs::home_dir`. Where it lies (`$HOME`, else the password database on
/// Unix) depends on the environment, so nothing is promised of it.
#[verifier::external_body]
fn home_directory() -> (r: Option<PathBuf>) {
    dirs::home_dir()
}

/// `dirs::config_dir`. It depends on the environment (`$XDG_CONFIG_HOME`, else
/// `$HOME/.config` on Linux), so nothing is promised of it.
#[verifier::external_body]
fn config_directory() -> (r: Option<PathBuf>) {
    dirs::config_dir()
}

/// A name made only of ASCII letters, digits, `-` and `_`, and not empty.
pub open spec fn is_config_name(app: Seq<char>) -> bool {
    &&& app.len() > 0
    &&& forall|i: int|
        0 <= i < app.len() ==> ('a' <= #[trigger] app[i] && app[i] <= 'z') || ('A' <= app[i]
            && app[i] <= 'Z') || ('0' <= app[i] && app[i] <= '9') || app[i] == '-' || app[i] == '_'
}

/// Checks that `app` can name a configuration file.
pub fn valid_config_name(app: &str) -> (r: bool)
    ensures
        r == is_config_name(app@),
{
    let n = app.unicode_len();
    if n == 0 {
        return false;
    }
    let mut i: usize = 0;
    while i < n
        invariant
            i <= n,
            n == app@.len(),
            forall|k: int|
                0 <= k < i ==> ('a' <= #[trigger] app@[k] && app@[k] <= 'z') || ('A' <= app@[k]
                    && app@[k] <= 'Z') || ('0' <= app@[k] && app@[k] <= '9') || app@[k] == '-'
                    || app@[k] == '_',
        decreases n - i,
    {
        let c = app.get_char(i);
        if !(('a' <= c && c <= 'z') || ('A' <= c && c <= 'Z') || ('0' <= c && c <= '9') || c == '-'
            || c == '_') {
            return false;
        }
        i = i + 1;
    }
    true
}

/// Why a configuration path could not be formed.
#[derive(Debug, Clone, PartialEq, Eq)]
pub enum PathError {
    /// The application name holds characters other than ASCII letters, digits, `-` or `_`, or is empty.
    InvalidName,
    /// The user's home directory is unknown.
    NoHomeDirectory,
    /// The user's configuration directory is unknown.
    NoConfigDirectory,
}

impl PathError {
    pub fn message(&self) -> (s: String)
        ensures
            s@ == match self {
                PathError::InvalidName => "application config name must contain only ASCII letters, numbers, hyphens, or underscores"@,
                PathError::NoHomeDirectory => "could not find the user home directory"@,
                PathError::NoConfigDirectory => "could not find the user config directory"@,
            },
    {
        match self {
            PathError::InvalidName => "application config name must contain only ASCII letters, numbers, hyphens, or underscores".to_owned(),
            PathError::NoHomeDirectory => "could not find the user home directory".to_owned(),
            PathError::NoConfigDirectory => "could not find the user config directory".to_owned(),
        }
    }
}

/// The dotfile that names the configuration of `app` in a home directory.
pub open spec fn config_file_name(app: Seq<char>) -> Seq<char> {
    "."@ + app
}

/// The configuration file of `app` under `home`: refused names first, then an
/// unknown home directory, else `.app` in the home directory.
pub open spec fn config_path_of(app: Seq<char>, home: Option<Seq<u8>>) -> Result<Seq<u8>, PathError> {
    if !is_config_name(app) {
        Err(PathError::InvalidName)
    } else {
        match home {
            Some(h) => Ok(join_bytes(h, text_bytes(config_file_name(app)))),
            None => Err(PathError::NoHomeDirectory),
        }
    }
}

/// The bytes of a path that was found, or the reason none was.
pub open spec fn path_result(r: Result<PathBuf, PathError>) -> Result<Seq<u8>, PathError> {
    match r {
        Ok(p) => Ok(path_bytes(p)),
        Err(e) => Err(e),
    }
}

/// The bytes of a directory, where one is known.
pub open spec fn opt_path(p: Option<PathBuf>) -> Option<Seq<u8>> {
    match p {
        Some(p) => Some(path_bytes(p)),
        None => None,
    }
}

/// The configuration file of `app` in the home directory `home`, where it is known.
pub fn config_path_in(app: &str, home: Option<PathBuf>) -> (r: Result<PathBuf, PathError>)
    ensures
        path_result(r) == config_path_of(app@, opt_path(home)),
{
    if !valid_config_name(app) {
        return Err(PathError::InvalidName);
    }
    match home {
        Some(home) => {
            let mut file = ".".to_owned();
            file.append(app);
            Ok(path_join(&home, file.as_str()))
        },
        None => Err(PathError::NoHomeDirectory),
    }
}

/// The configuration file of `app`: `.app` in the user's home directory.
/// Names other than ASCII letters, digits, `-` and `_` are refused, so that a
/// name can never leave the home directory.
pub fn config_path(app: &str) -> (r: Result<PathBuf, PathError>)
    ensures
        exists|home: Option<Seq<u8>>| path_result(r) == config_path_of(app@, home),
{
    let home = home_directory();
    config_path_in(app, home)
}

/// `app/config.toml` under the configuration directory `base`, where it is known.
pub open spec fn legacy_config_path_of(app: Seq<char>, base: Option<Seq<u8>>) -> Result<Seq<u8>, PathError> {
    match base {
        Some(b) => Ok(join_bytes(join_bytes(b, text_bytes(app)), text_bytes("config.toml"@))),
        None => Err(PathError::NoConfigDirectory),
    }
}

/// The legacy configuration file of `app` under the configuration directory `base`.
pub fn legacy_config_path_in(app: &str, base: Option<PathBuf>) -> (r: Result<PathBuf, PathError>)
    ensures
        path_result(r) == legacy_config_path_of(app@, opt_path(base)),
{
    match base {
        Some(base) => {
            let dir = path_join(&base, app);
            Ok(path_join(&dir, "config.toml"))
        },
        None => Err(PathError::NoConfigDirectory),
    }
}

/// The configuration file of `app` where earlier versions kept it:
/// `app/config.toml` in the user's configuration directory.
pub fn legacy_config_path(app: &str) -> (r: Result<PathBuf, PathError>)
    ensures
        exists|base: Option<Seq<u8>>| path_result(r) == legacy_config_path_of(app@, base),
{
    let base = config_directory();
    legacy_config_path_in(app, base)
}

/// A product: its configuration namespace, the prefix of its environment
/// variables, and the API base given to newly saved accounts.
#[derive(Debug, Clone, PartialEq, Eq)]
pub struct Product {
    pub slug: String,
    pub env_prefix: String,
    pub default_api_base: String,
}

impl Product {
    pub fn new(slug: String, env_prefix: String, default_api_base: String) -> (p: Self)
        ensures
            p.slug == slug,
            p.env_prefix == env_prefix,
            p.default_api_base == default_api_base,
    {
        Product { slug, env_prefix, default_api_base }
    }

    /// The product's configuration file.
    pub fn config_path(&self) -> (r: Result<PathBuf, PathError>)
        ensures
            exists|home: Option<Seq<u8>>| path_result(r) == config_path_of(self.slug@, home),
    {
        config_path(self.slug.as_str())
    }

    /// The name of the variable that holds an API key: `PREFIX_API_KEY`.
    pub fn api_key_variable(&self) -> (s: String)
        ensures
            s@ == self.env_prefix@ + "_API_KEY"@,
    {
        let mut s = self.env_prefix.clone();
        s.append("_API_KEY");
        s
    }

    /// The name of the variable that holds an API base: `PREFIX_API_BASE`.
    pub fn api_base_variable(&self) -> (s: String)
        ensures
            s@ == self.env_prefix@ + "_API_BASE"@,
    {
        let mut s = self.env_prefix.clone();
        s.append("_API_BASE");
        s
    }

    /// The account that the environment describes, given the values of
    /// `PREFIX_API_KEY` and `PREFIX_API_BASE`: none without a key; with one,
    /// that key at the given base or, where none is given, the product's default.
    pub fn environment_account(&self, api_key: Option<String>, api_base: Option<String>) -> (r: Option<Account>)
        ensures
            api_key is None ==> r is None,
            api_key is Some ==> r is Some && opt_str(r->0.token) == opt_str(api_key) && r->0.api_base@
                == match api_base {
                Some(b) => b@,
                None => self.default_api_base@,
            } && r->0.email is None && r->0.tier is None,
    {
        let key = match api_key {
            Some(k) => k,
            None => return None,
        };
        let api_base = match api_base {
            Some(b) => b,
            None => self.default_api_base.clone(),
        };
        Some(Account { api_base, token: Some(key), email: None, tier: None })
    }
}

/// The standard directories for a section-1 manual, in the order they are
/// tried: Homebrew's and the local one first on macOS, the local one first
/// elsewhere, and the user's own directory under `home`.
pub open spec fn manpage_directories_of(home: Seq<u8>, os: Seq<char>) -> Seq<Seq<u8>> {
    let user = join_bytes(home, text_bytes(".local/share/man/man1"@));
    if os == "macos"@ {
        seq![
            text_bytes("/opt/homebrew/share/man/man1"@),
            text_bytes("/usr/local/share/man/man1"@),
            user,
        ]
    } else {
        seq![text_bytes("/usr/local/share/man/man1"@), user, text_bytes("/usr/share/man/man1"@)]
    }
}

/// The standard manual directories for the operating system `os`, with the
/// user's own under `home`.
pub fn manpage_directories_in(home: &PathBuf, os: &str) -> (r: Vec<PathBuf>)
    ensures
        paths_view(r@) == manpage_directories_of(path_bytes(*home), os@),
{
    let user = path_join(home, ".local/share/man/man1");
    let mut r: Vec<PathBuf> = Vec::new();
    if crate::text::same_text(os, "macos") {
        r.push(path_from("/opt/homebrew/share/man/man1"));
        r.push(path_from("/usr/local/share/man/man1"));
        r.push(user);
    } else {
        r.push(path_from("/usr/local/share/man/man1"));
        r.push(user);
        r.push(path_from("/usr/share/man/man1"));
    }
    assert(paths_view(r@) =~= manpage_directories_of(path_bytes(*home), os@));
    r
}

/// The standard manual directories for the operating system `os` (as
/// `std::env::consts::OS` names it), with the user's own under the home
/// directory, or under `.` where the home directory is unknown.
pub fn default_manpage_directories(os: &str) -> (r: Vec<PathBuf>)
    ensures
        exists|home: Seq<u8>| paths_view(r@) == manpage_directories_of(home, os@),
{
    let home = match home_directory() {
        Some(h) => h,
        None => path_from("."),
    };
    manpage_directories_in(&home, os)
}

} // verus!
