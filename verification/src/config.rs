//! The overlay's connection settings: which room to join on which server.

use vstd::prelude::*;

verus! {

/// Connection settings of the overlay.
pub struct Config {
    pub room: String,
    pub server: String,
}

impl Config {
    /// The empty configuration: no room, no server.
    pub fn default() -> (c: Self)
        ensures
            c.room@ == Seq::<char>::empty(),
            c.server@ == Seq::<char>::empty(),
    {
        Config { room: String::new(), server: String::new() }
    }

    /// What loading yields: the configuration read from the file when it could be
    /// read and parsed, the empty configuration otherwise.
    pub fn or_default(loaded: Option<Config>) -> (c: Self)
        ensures
            match loaded {
                Some(l) => c == l,
                None => c.room@ == Seq::<char>::empty() && c.server@ == Seq::<char>::empty(),
            },
    {
        match loaded {
            Some(conf) => Config { room: conf.room, server: conf.server },
            None => Config::default(),
        }
    }
}

impl Default for Config {
    fn default() -> (c: Self)
        ensures
            c.room@ == Seq::<char>::empty(),
            c.server@ == Seq::<char>::empty(),
    {
        Config::default()
    }
}

/// Name of the directory under the roaming application data folder.
pub open spec fn app_dir_name() -> Seq<char> {
    "Transparent-Overlay"@
}

/// Name of the configuration file.
pub open spec fn config_file_name() -> Seq<char> {
    "config.json"@
}

/// Name of the icon file written to the temporary directory.
pub open spec fn icon_file_name() -> Seq<char> {
    "transparent-overlay.png"@
}

/// The path components of the configuration file: `<appdata>/Transparent-Overlay/config.json`
/// when the roaming application data folder is known, `<current dir>/config.json` otherwise.
pub fn config_path_parts(appdata: Option<String>, current_dir: String) -> (parts: Vec<String>)
    ensures
        match appdata {
            Some(dir) => parts@.map_values(|p: String| p@) == seq![
                dir@,
                app_dir_name(),
                config_file_name(),
            ],
            None => parts@.map_values(|p: String| p@) == seq![current_dir@, config_file_name()],
        },
{
    let mut parts: Vec<String> = Vec::new();
    match appdata {
        Some(dir) => {
            parts.push(dir);
            parts.push(String::from_str("Transparent-Overlay"));
        },
        None => {
            parts.push(current_dir);
        },
    }
    parts.push(String::from_str("config.json"));
    assert(parts@.map_values(|p: String| p@) =~= match appdata {
        Some(dir) => seq![dir@, app_dir_name(), config_file_name()],
        None => seq![current_dir@, config_file_name()],
    });
    parts
}

/// The path components of the overlay icon: `<temp dir>/transparent-overlay.png`.
pub fn icon_path_parts(temp_dir: String) -> (parts: Vec<String>)
    ensures
        parts@.map_values(|p: String| p@) == seq![temp_dir@, icon_file_name()],
{
    let mut parts: Vec<String> = Vec::new();
    parts.push(temp_dir);
    parts.push(String::from_str("transparent-overlay.png"));
    assert(parts@.map_values(|p: String| p@) =~= seq![parts@[0]@, icon_file_name()]);
    parts
}

} // verus!
