//! The action table and where it is loaded from.
//!
//! A configuration holds two tables, one for keys and one for the wheel, each
//! from a code to the command that it triggers. It is loaded once, before the
//! pipeline starts, from the first of two places that has a file.

use std::collections::HashMap;
use vstd::prelude::*;
use vstd::std_specs::hash::group_hash_axioms;
use vstd::string::StrSliceExecFns;
use vstd::string::StringExecFns;
use crate::models::device_event::DeviceEvent;

verus! {

/// The two tables of a configuration as mathematical maps from a code to the
/// characters of its command. A code without an entry has no action.
pub struct ActionTable {
    pub keys: Map<u8, Seq<char>>,
    pub wheel: Map<u8, Seq<char>>,
}

impl ActionTable {
    /// The table without any action.
    pub open spec fn empty() -> ActionTable {
        ActionTable { keys: Map::empty(), wheel: Map::empty() }
    }

    /// The command that `event` triggers: key events are looked up among the
    /// keys, wheel events among the wheel's entries.
    pub open spec fn command_for(self, event: DeviceEvent) -> Option<Seq<char>> {
        match event {
            DeviceEvent::Key(code) => if self.keys.contains_key(code) {
                Some(self.keys[code])
            } else {
                None
            },
            DeviceEvent::Wheel(value) => if self.wheel.contains_key(value) {
                Some(self.wheel[value])
            } else {
                None
            },
        }
    }
}

/// What one table of a configuration maps: nothing when the table is absent.
pub open spec fn commands(table: Option<HashMap<u8, String>>) -> Map<u8, Seq<char>> {
    match table {
        Some(entries) => entries@.map_values(|command: String| command@),
        None => Map::empty(),
    }
}

/// The mappings from codes to commands. A table that the file leaves out is
/// `None`, which means the same as an empty one.
#[derive(Clone, Debug, PartialEq, Eq)]
pub struct Config {
    pub keys: Option<HashMap<u8, String>>,
    pub wheel: Option<HashMap<u8, String>>,
}

impl View for Config {
    type V = ActionTable;

    open spec fn view(&self) -> ActionTable {
        ActionTable { keys: commands(self.keys), wheel: commands(self.wheel) }
    }
}

/// What came of looking for a configuration file and reading it.
#[derive(Clone, Debug, PartialEq, Eq)]
pub enum ConfigSource {
    /// Neither place holds a file.
    Missing,
    /// A file was found, but it could not be read or is malformed.
    Unusable,
    /// A file was found and holds this configuration.
    Loaded(Config),
}

impl Config {
    /// The configuration without any action: both tables absent.
    pub fn empty() -> (config: Config)
        ensures
            config.keys is None,
            config.wheel is None,
            config@ == ActionTable::empty(),
    {
        Config { keys: None, wheel: None }
    }

    /// The configuration that the daemon runs with. A file that was loaded is
    /// taken as it is. A missing or unusable file is no failure: the daemon
    /// then runs without actions.
    pub fn load_config(source: ConfigSource) -> (config: Config)
        ensures
            match source {
                ConfigSource::Loaded(loaded) => config == loaded,
                ConfigSource::Missing | ConfigSource::Unusable => config.keys is None
                    && config.wheel is None,
            },
            !(source is Loaded) ==> config@ == ActionTable::empty(),
    {
        match source {
            ConfigSource::Loaded(loaded) => loaded,
            ConfigSource::Missing => Config::empty(),
            ConfigSource::Unusable => Config::empty(),
        }
    }

    /// The command configured for `event`, if there is one.
    pub fn command_for(&self, event: DeviceEvent) -> (command: Option<&String>)
        ensures
            match command {
                Some(text) => self@.command_for(event) == Some(text@),
                None => self@.command_for(event) is None,
            },
    {
        broadcast use group_hash_axioms;

        let (table, code) = match event {
            DeviceEvent::Key(code) => (&self.keys, code),
            DeviceEvent::Wheel(value) => (&self.wheel, value),
        };
        match table {
            Some(entries) => entries.get(&code),
            None => None,
        }
    }
}

/// Name of the file that is tried first, relative to the working directory.
pub const LOCAL_CONFIG: &'static str = "config.yaml";

/// Path of the file below a home directory, relative to that directory.
pub const HOME_CONFIG: &'static str = ".config/kboard/config.yaml";

/// The characters of the path that is tried first: `config.yaml`, relative to
/// the working directory.
pub open spec fn local_config_path() -> Seq<char> {
    LOCAL_CONFIG@
}

/// The characters of the path below a home directory: the directory, a `/`
/// unless the directory is empty or ends in one, and
/// `.config/kboard/config.yaml`.
pub open spec fn home_config_path(home: Seq<char>) -> Seq<char> {
    if home.len() == 0 || home.last() == '/' {
        home + HOME_CONFIG@
    } else {
        home.push('/') + HOME_CONFIG@
    }
}

/// The path of the configuration file below the home directory `home`.
pub fn home_config(home: &str) -> (path: String)
    ensures
        path@ == home_config_path(home@),
{
    let len: usize = home.unicode_len();
    let mut path = String::from_str(home);
    if len > 0 && home.get_char(len - 1) != '/' {
        proof {
            reveal_strlit("/");
        }
        path.append("/");
        assert(path@ =~= home@.push('/'));
    }
    path.append(HOME_CONFIG);
    path
}

/// The path that discovery settles on. The file in the working directory
/// wins. Without it, the file below the home directory is taken if a home
/// directory is known and the file is there.
pub open spec fn chosen_config(
    local_exists: bool,
    home: Option<Seq<char>>,
    home_exists: bool,
) -> Option<Seq<char>> {
    if local_exists {
        Some(local_config_path())
    } else if home is Some && home_exists {
        Some(home_config_path(home->0))
    } else {
        None
    }
}

/// The characters of an optional string slice.
pub open spec fn str_view(text: Option<&str>) -> Option<Seq<char>> {
    match text {
        Some(slice) => Some(slice@),
        None => None,
    }
}

/// The characters of an optional string.
pub open spec fn string_view(text: Option<String>) -> Option<Seq<char>> {
    match text {
        Some(string) => Some(string@),
        None => None,
    }
}

/// Decides which configuration file to load. `local_exists` says whether
/// `config.yaml` exists in the working directory, `home` is the value of
/// `HOME` if it is set, and `home_exists` says whether the file at
/// `home_config(home)` exists; it is not looked at without a home directory.
pub fn find_config(local_exists: bool, home: Option<&str>, home_exists: bool) -> (found: Option<
    String,
>)
    ensures
        string_view(found) == chosen_config(local_exists, str_view(home), home_exists),
        found is None <==> !local_exists && (home is None || !home_exists),
{
    if local_exists {
        return Some(String::from_str(LOCAL_CONFIG));
    }
    if let Some(directory) = home {
        if home_exists {
            return Some(home_config(directory));
        }
    }
    None
}

} // verus!
