//! The configuration record: a single log-file path, kept in a small config
//! file under the user's home directory. A missing or unparsable config is
//! never fatal outside the explicit initialize operation; callers fall back
//! to the default.

use vstd::prelude::*;
use vstd::string::StringExecFns;

verus! {

/// Errors of the configuration component.
#[derive(Debug, Clone, Copy, PartialEq, Eq, Structural)]
pub enum ConfigError {
    /// Initializing while a config file already exists at the computed
    /// location; user configuration is never overwritten.
    AlreadyExists,
    /// The home directory could not be determined, so no config file
    /// location can be computed.
    HomeMissing,
}

impl ConfigError {
    /// A human-readable description of the error.
    pub fn message(&self) -> (r: String)
        ensures
            *self == ConfigError::AlreadyExists ==> r@ == "config file already exists"@,
            *self == ConfigError::HomeMissing ==> r@ == "home folder missing"@,
    {
        match self {
            ConfigError::AlreadyExists => String::from_str("config file already exists"),
            ConfigError::HomeMissing => String::from_str("home folder missing"),
        }
    }
}

/// Relies on `shellexpand::tilde`. An input that does not start with `~`
/// comes back unchanged, as does a `~otheruser/...` form (a tilde followed
/// by anything but a path separator), which the crate does not handle. An
/// input of `~` alone or `~/...` comes back either unchanged — when no home
/// directory can be determined — or as the home directory followed by
/// everything after the `~`.
#[verifier::external_body]
fn tilde_expand(s: &str) -> (r: String)
    ensures
        (s@.len() == 0 || s@[0] != '~') ==> r@ == s@,
        (s@.len() >= 2 && s@[0] == '~' && s@[1] != '/' && s@[1] != '\\') ==> r@ == s@,
        (s@.len() >= 1 && s@[0] == '~' && (s@.len() == 1 || s@[1] == '/')) ==> (r@ == s@
            || exists|h: Seq<char>| r@ == h + s@.skip(1)),
{
    shellexpand::tilde(s).into_owned()
}

/// Relies on `dirs::home_dir`: the user's home directory, when the platform
/// reports one. The result depends on the environment, so nothing is
/// promised of it.
#[verifier::external_body]
fn home_dir() -> (r: Option<String>) {
    dirs::home_dir().map(|p| p.to_string_lossy().into_owned())
}

/// The persisted configuration: the path of the log file, possibly with a
/// leading `~` shorthand.
#[derive(Debug, Clone)]
pub struct ConfigFile {
    path: String,
}

impl ConfigFile {
    /// The configured path, as a character sequence.
    pub closed spec fn path_view(&self) -> Seq<char> {
        self.path@
    }

    /// A configuration with the given log-file path.
    pub fn new(path: String) -> (r: ConfigFile)
        ensures
            r.path_view() == path@,
    {
        ConfigFile { path }
    }

    /// The configured path as stored, shorthand and all.
    pub fn path_str(&self) -> (r: &String)
        ensures
            r@ == self.path_view(),
    {
        &self.path
    }

    /// The configured path with a leading home shorthand expanded. A path
    /// without the shorthand is returned unchanged, as is a `~otheruser/...`
    /// form; `~` or `~/...` becomes the home directory followed by the rest
    /// of the path, or stays unchanged when no home directory is known.
    pub fn normalized_path(&self) -> (r: String)
        ensures
            (self.path_view().len() == 0 || self.path_view()[0] != '~') ==> r@
                == self.path_view(),
            (self.path_view().len() >= 2 && self.path_view()[0] == '~'
                && self.path_view()[1] != '/' && self.path_view()[1] != '\\') ==> r@
                == self.path_view(),
            (self.path_view().len() >= 1 && self.path_view()[0] == '~' && (self.path_view().len()
                == 1 || self.path_view()[1] == '/')) ==> (r@ == self.path_view()
                || exists|h: Seq<char>| r@ == h + self.path_view().skip(1)),
    {
        tilde_expand(self.path.as_str())
    }
}

impl Default for ConfigFile {
    /// The fallback configuration: the log file `log.slf` in the current
    /// directory.
    fn default() -> (r: ConfigFile)
        ensures
            r.path_view() == "log.slf"@,
    {
        ConfigFile { path: String::from_str("log.slf") }
    }
}

/// The config file location under a given home directory:
/// `.config/slf/slf.toml` inside it.
pub fn config_path_in_home(home: &str) -> (r: String)
    ensures
        r@ == home@ + "/.config/slf/slf.toml"@,
{
    String::from_str(home).concat("/.config/slf/slf.toml")
}

/// The config file location under a given platform config directory:
/// `slf/slf.toml` inside it.
pub fn config_path_in_dir(dir: &str) -> (r: String)
    ensures
        r@ == dir@ + "/slf/slf.toml"@,
{
    String::from_str(dir).concat("/slf/slf.toml")
}

/// The location of the config file: `.config/slf/slf.toml` under the home
/// directory. Fails when no home directory can be determined.
pub fn config_file_path() -> (r: Result<String, ConfigError>)
    ensures
        r matches Ok(p) ==> exists|h: Seq<char>| p@ == h + "/.config/slf/slf.toml"@,
        r matches Err(e) ==> e == ConfigError::HomeMissing,
{
    match home_dir() {
        Some(h) => {
            let ghost hv = h@;
            let p = config_path_in_home(h.as_str());
            proof {
                assert(p@ == hv + "/.config/slf/slf.toml"@);
            }
            Ok(p)
        },
        None => Err(ConfigError::HomeMissing),
    }
}

/// The decision of the initialize operation: it succeeds exactly when no
/// config file exists yet, and never touches an existing one.
pub fn init_allowed(config_exists: bool) -> (r: Result<(), ConfigError>)
    ensures
        r is Ok <==> !config_exists,
        r matches Err(e) ==> e == ConfigError::AlreadyExists,
{
    if config_exists {
        Err(ConfigError::AlreadyExists)
    } else {
        Ok(())
    }
}

} // verus!
