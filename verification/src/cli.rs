//! What the command line says.

use vstd::prelude::*;
use crate::paths::{home_dir, join, path_join};
use crate::text::text_of;

verus! {

/// Where the configuration file lies below the user's home directory.
pub const CONFIG_PATH: &'static str = ".config/sali/config.yaml";

/// The options of the command line.
#[derive(Clone, Debug, PartialEq, Eq)]
pub struct Cli {
    /// Alternative path to a config file
    pub config: String,
    /// Start the gtk inspector on application launch
    pub inspect: bool,
}

/// The path of the configuration file of a user whose home directory is
/// `home`: [`CONFIG_PATH`] below it, and below the empty path where the
/// home directory is not known.
pub open spec fn default_config_path(home: Option<Seq<char>>) -> Seq<char> {
    path_join(
        match home {
            Some(home) => home,
            None => Seq::empty(),
        },
        CONFIG_PATH@,
    )
}

/// The path of the configuration file of a user whose home directory is `home`.
pub fn default_config_path_from(home: Option<String>) -> (path: String)
    ensures
        path@ == default_config_path(text_of(home)),
{
    let home = match home {
        Some(home) => home,
        None => String::new(),
    };
    join(home.as_str(), CONFIG_PATH)
}

/// The path of the configuration file where the command line names none.
pub fn get_default_config_path() -> (path: String)
    ensures
        exists|home: Option<Seq<char>>| path@ == default_config_path(home),
{
    default_config_path_from(home_dir())
}

} // verus!
