//! Loading of preset files.

use vstd::prelude::*;
use vstd::string::*;

use crate::error::Error;

verus! {

/// Loads preset files.
pub struct PresetManager {}

impl PresetManager {
    /// A preset manager.
    pub fn new() -> (res: Self)
        ensures
            res == (PresetManager {}),
    {
        Self {}
    }

    /// The error of a preset file at `path` that could not be opened or
    /// read, for the given reason.
    pub fn file_error(reason: &str, path: &str) -> (res: Error)
        ensures
            res matches Error::OpenFile(m) && m@ == reason@ + ", path: "@ + path@,
    {
        let mut m = reason.to_owned();
        m.append(", path: ");
        m.append(path);
        Error::OpenFile(m)
    }

    /// The error of a preset file that is not a valid preset.
    pub fn parse_error(reason: String) -> (res: Error)
        ensures
            res == Error::InvalidConfiguration(reason),
    {
        Error::InvalidConfiguration(reason)
    }
}

} // verus!
