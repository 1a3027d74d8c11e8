//! The system-wide record of the presets that have been applied.

use vstd::prelude::*;
use vstd::string::*;

use crate::error::Error;
use crate::str_map::StrMap;

verus! {

/// Where the configuration is stored.
pub const CONFIG_PATH: &'static str = "/usr/share/bakeryos/preset/config.json";

/// What is recorded of one applied preset.
pub struct PresetConfig {
    pub name: String,
    pub backup: Option<String>,
}

/// The applied presets, by preset id.
pub struct Config {
    pub presets: StrMap<PresetConfig>,
}

/// The backup directory recorded for preset `id`, if any.
pub open spec fn backup_path_of(presets: Map<Seq<char>, PresetConfig>, id: Seq<char>) -> Option<Seq<char>> {
    if presets.contains_key(id) {
        match presets[id].backup {
            Some(b) => Some(b@),
            None => None,
        }
    } else {
        None
    }
}

impl Config {
    /// A configuration in which no preset is recorded.
    pub fn new() -> (res: Config)
        ensures
            res.presets@ == Map::<Seq<char>, PresetConfig>::empty(),
    {
        Config { presets: StrMap::new() }
    }

    /// The backup directory recorded for preset `id`.
    pub fn get_backup_path_by_id(&self, id: &str) -> (res: Option<String>)
        ensures
            match res {
                Some(p) => backup_path_of(self.presets@, id@) == Some(p@),
                None => backup_path_of(self.presets@, id@) is None,
            },
    {
        match self.presets.get(id) {
            Some(preset) => match &preset.backup {
                Some(b) => Some(b.clone()),
                None => None,
            },
            None => None,
        }
    }

    /// Whether preset `id` is recorded.
    pub fn has_preset(&self, id: &str) -> (res: bool)
        ensures
            res == self.presets@.contains_key(id@),
    {
        self.presets.contains_key(id)
    }

    /// Records preset `id` under `name` with the backup directory
    /// `backup_path`, replacing an earlier record of the same id.
    pub fn save_preset(&mut self, id: &str, name: &str, backup_path: &str) -> (res: Result<(), Error>)
        ensures
            res is Ok,
            final(self).presets@.contains_key(id@),
            final(self).presets@[id@].name@ == name@,
            final(self).presets@[id@].backup matches Some(b) && b@ == backup_path@,
            forall|k: Seq<char>| k != id@ ==> (#[trigger] final(self).presets@.contains_key(k)
                == old(self).presets@.contains_key(k)),
            forall|k: Seq<char>| k != id@ && old(self).presets@.contains_key(k)
                ==> #[trigger] final(self).presets@[k] == old(self).presets@[k],
            final(self).presets@.dom().finite(),
            final(self).presets@.len() == old(self).presets@.len() + if old(self).presets@.contains_key(id@) {
                0int
            } else {
                1int
            },
    {
        self.presets.insert(
            id.to_owned(),
            PresetConfig { name: name.to_owned(), backup: Some(backup_path.to_owned()) },
        );
        Ok(())
    }
}

/// Reads and writes the configuration file.
pub struct ConfigManager {}

impl ConfigManager {
    /// The error of a configuration file that could not be opened, read or
    /// written, for the given reason.
    pub fn file_error(reason: &str) -> (res: Error)
        ensures
            res matches Error::OpenFile(m) && m@ == reason@ + ", path: "@ + CONFIG_PATH@,
    {
        let mut m = reason.to_owned();
        m.append(", path: ");
        m.append(CONFIG_PATH);
        Error::OpenFile(m)
    }

    /// The error of a configuration that could not be parsed or printed.
    pub fn invalid_error(reason: String) -> (res: Error)
        ensures
            res == Error::InvalidConfiguration(reason),
    {
        Error::InvalidConfiguration(reason)
    }

    /// The configuration to work with, given what reading it gave: the
    /// configuration read, or, when it could not be read, one in which no
    /// preset is recorded.
    pub fn config_or_default(read: Result<Config, Error>) -> (res: Config)
        ensures
            match read {
                Ok(c) => res == c,
                Err(_) => res.presets@ == Map::<Seq<char>, PresetConfig>::empty(),
            },
    {
        match read {
            Ok(c) => c,
            Err(_) => Config::new(),
        }
    }
}

/// A saved preset is found again: after `save_preset(id, name, path)` the
/// configuration has the preset `id`, its backup directory is `path`, and
/// every other preset is recorded as before.
pub proof fn lemma_saved_preset_found(
    before: Map<Seq<char>, PresetConfig>,
    after: Map<Seq<char>, PresetConfig>,
    id: Seq<char>,
    name: Seq<char>,
    path: Seq<char>,
    other: Seq<char>,
)
    requires
        after.contains_key(id),
        after[id].name@ == name,
        after[id].backup matches Some(b) && b@ == path,
        forall|k: Seq<char>| k != id ==> (#[trigger] after.contains_key(k) == before.contains_key(k)),
        forall|k: Seq<char>| k != id && before.contains_key(k) ==> #[trigger] after[k] == before[k],
        other != id,
    ensures
        backup_path_of(after, id) == Some(path),
        backup_path_of(after, other) == backup_path_of(before, other),
{
    assert(after.contains_key(other) == before.contains_key(other));
}

} // verus!
