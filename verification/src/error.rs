//! The errors of the library and the messages they print as.

use vstd::prelude::*;
use vstd::string::*;

verus! {

/// What went wrong while managing or applying a preset.
#[derive(Debug)]
pub enum Error {
    OpenFile(String),
    InvalidConfiguration(String),
    ConfigError(String),
    HookError(String),
    PresetError(String),
    PackageError(String),
    BackupError(String),
    UnknownError,
}

/// The message an error prints as.
pub open spec fn error_message(e: Error) -> Seq<char> {
    match e {
        Error::OpenFile(s) => "Failed to open file: "@ + s@,
        Error::InvalidConfiguration(s) => "Invalid config: "@ + s@,
        Error::ConfigError(s) => "Config error: "@ + s@,
        Error::HookError(s) => "Hook error: "@ + s@,
        Error::PresetError(s) => "Preset error: "@ + s@,
        Error::PackageError(s) => "Package error: "@ + s@,
        Error::BackupError(s) => "Backup error: "@ + s@,
        Error::UnknownError => "An unknown error occurred!"@,
    }
}

/// `prefix` followed by `detail`.
fn prefixed(prefix: &str, detail: &String) -> (res: String)
    ensures
        res@ == prefix@ + detail@,
{
    let mut res = prefix.to_owned();
    res.append(detail.as_str());
    res
}

impl Error {
    /// The message this error prints as.
    pub fn message(&self) -> (res: String)
        ensures
            res@ == error_message(*self),
    {
        match self {
            Error::OpenFile(s) => prefixed("Failed to open file: ", s),
            Error::InvalidConfiguration(s) => prefixed("Invalid config: ", s),
            Error::ConfigError(s) => prefixed("Config error: ", s),
            Error::HookError(s) => prefixed("Hook error: ", s),
            Error::PresetError(s) => prefixed("Preset error: ", s),
            Error::PackageError(s) => prefixed("Package error: ", s),
            Error::BackupError(s) => prefixed("Backup error: ", s),
            Error::UnknownError => "An unknown error occurred!".to_owned(),
        }
    }
}

} // verus!
