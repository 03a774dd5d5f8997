//! Where plugins, logs and configuration live, as a function of the build
//! mode and of the user's base directories.

use vstd::prelude::*;
use vstd::string::StringExecFns;
use crate::plugin_api::paths::{join, join_of};

verus! {

/// Whether the application runs from its source tree or installed.
#[derive(Clone, Copy, Debug, PartialEq, Eq, Structural)]
pub enum BuildMode {
    Development,
    Installed,
}

/// The user's base directories, as the operating system reports them.
#[derive(Debug)]
pub struct BaseDirectories {
    pub data_dir: String,
    pub config_dir: String,
}

/// The directory of the application below the base directories.
pub open spec fn app_dir_name() -> Seq<char> {
    "smart_transfer"@
}

/// A directory of application data: `fallback` in development or without
/// base directories, else `leaf` below the application's data directory.
pub open spec fn data_dir_of(
    mode: BuildMode,
    base: Option<BaseDirectories>,
    leaf: Seq<char>,
) -> Seq<char> {
    match (mode, base) {
        (BuildMode::Installed, Some(dirs)) => join_of(
            join_of(dirs.data_dir@, app_dir_name()),
            leaf,
        ),
        _ => leaf,
    }
}

/// The plugin directory.
pub open spec fn plugin_dir_of(mode: BuildMode, base: Option<BaseDirectories>) -> Seq<char> {
    data_dir_of(mode, base, "plugins"@)
}

/// The log directory.
pub open spec fn log_dir_of(mode: BuildMode, base: Option<BaseDirectories>) -> Seq<char> {
    data_dir_of(mode, base, "logs"@)
}

/// The configuration directory: `config` in development or without base
/// directories, else the application's directory below the user's
/// configuration directory.
pub open spec fn config_dir_of(mode: BuildMode, base: Option<BaseDirectories>) -> Seq<char> {
    match (mode, base) {
        (BuildMode::Installed, Some(dirs)) => join_of(dirs.config_dir@, app_dir_name()),
        _ => "config"@,
    }
}

fn data_dir(mode: BuildMode, base: &Option<BaseDirectories>, leaf: &str) -> (r: String)
    ensures
        r@ == data_dir_of(mode, *base, leaf@),
{
    match (mode, base) {
        (BuildMode::Installed, Some(dirs)) => {
            let app = join(dirs.data_dir.as_str(), "smart_transfer");
            join(app.as_str(), leaf)
        },
        _ => leaf.to_owned(),
    }
}

/// The directory in which plugin libraries are looked for.
pub fn get_plugin_dir(mode: BuildMode, base: &Option<BaseDirectories>) -> (r: String)
    ensures
        r@ == plugin_dir_of(mode, *base),
{
    data_dir(mode, base, "plugins")
}

/// The directory to which logs are written.
pub fn get_log_dir(mode: BuildMode, base: &Option<BaseDirectories>) -> (r: String)
    ensures
        r@ == log_dir_of(mode, *base),
{
    data_dir(mode, base, "logs")
}

/// The directory in which the configuration is kept.
pub fn get_config_dir(mode: BuildMode, base: &Option<BaseDirectories>) -> (r: String)
    ensures
        r@ == config_dir_of(mode, *base),
{
    match (mode, base) {
        (BuildMode::Installed, Some(dirs)) => join(dirs.config_dir.as_str(), "smart_transfer"),
        _ => String::from_str("config"),
    }
}

/// Calls `directories::BaseDirs::new` and copies the data and the
/// configuration directory out of what it returns. The result depends on
/// the user's environment: nothing is claimed of it.
#[verifier::external_body]
fn lookup_base_directories() -> Option<BaseDirectories> {
    ::directories::BaseDirs::new().map(
        |dirs|
            BaseDirectories {
                data_dir: dirs.data_dir().to_string_lossy().into_owned(),
                config_dir: dirs.config_dir().to_string_lossy().into_owned(),
            },
    )
}

/// The directories of one platform, for the current user.
///
/// Each method looks the user's base directories up and gives the
/// directory that follows from whatever was found.
pub trait PlatformPaths {
    fn get_plugin_dir(mode: BuildMode) -> (r: String)
        ensures
            exists|base: Option<BaseDirectories>| r@ == #[trigger] plugin_dir_of(mode, base),
            mode == BuildMode::Development ==> r@ == "plugins"@,
    ;

    fn get_log_dir(mode: BuildMode) -> (r: String)
        ensures
            exists|base: Option<BaseDirectories>| r@ == #[trigger] log_dir_of(mode, base),
            mode == BuildMode::Development ==> r@ == "logs"@,
    ;

    fn get_config_dir(mode: BuildMode) -> (r: String)
        ensures
            exists|base: Option<BaseDirectories>| r@ == #[trigger] config_dir_of(mode, base),
            mode == BuildMode::Development ==> r@ == "config"@,
    ;
}

/// The directories on Windows.
pub struct WindowsPaths;

/// The directories on Linux.
pub struct LinuxPaths;

/// The directories on macOS.
pub struct MacOSPaths;

impl PlatformPaths for WindowsPaths {
    fn get_plugin_dir(mode: BuildMode) -> (r: String) {
        let base = lookup_base_directories();
        self::get_plugin_dir(mode, &base)
    }

    fn get_log_dir(mode: BuildMode) -> (r: String) {
        let base = lookup_base_directories();
        self::get_log_dir(mode, &base)
    }

    fn get_config_dir(mode: BuildMode) -> (r: String) {
        let base = lookup_base_directories();
        self::get_config_dir(mode, &base)
    }
}

impl PlatformPaths for LinuxPaths {
    fn get_plugin_dir(mode: BuildMode) -> (r: String) {
        let base = lookup_base_directories();
        self::get_plugin_dir(mode, &base)
    }

    fn get_log_dir(mode: BuildMode) -> (r: String) {
        let base = lookup_base_directories();
        self::get_log_dir(mode, &base)
    }

    fn get_config_dir(mode: BuildMode) -> (r: String) {
        let base = lookup_base_directories();
        self::get_config_dir(mode, &base)
    }
}

impl PlatformPaths for MacOSPaths {
    fn get_plugin_dir(mode: BuildMode) -> (r: String) {
        let base = lookup_base_directories();
        self::get_plugin_dir(mode, &base)
    }

    fn get_log_dir(mode: BuildMode) -> (r: String) {
        let base = lookup_base_directories();
        self::get_log_dir(mode, &base)
    }

    fn get_config_dir(mode: BuildMode) -> (r: String) {
        let base = lookup_base_directories();
        self::get_config_dir(mode, &base)
    }
}

} // verus!
