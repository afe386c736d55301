//! What can go wrong between the stored file and the configuration.

use vstd::prelude::*;

verus! {

/// A failure of loading or saving. Each variant carries a message for the
/// user, taken from the underlying cause.
#[derive(Debug, PartialEq, Eq)]
pub enum ConfigError {
    /// The file's text is no TOML document, or the document does not have
    /// the shape of a configuration.
    Parse(String),
    /// The file or its directory could not be read or written.
    Io(String),
    /// The configuration could not be turned into text.
    Serialization(String),
}

impl ConfigError {
    /// The message that this error carries.
    pub fn message(&self) -> (r: &str)
        ensures
            r@ == match *self {
                ConfigError::Parse(m) => m@,
                ConfigError::Io(m) => m@,
                ConfigError::Serialization(m) => m@,
            },
    {
        match self {
            ConfigError::Parse(m) => m.as_str(),
            ConfigError::Io(m) => m.as_str(),
            ConfigError::Serialization(m) => m.as_str(),
        }
    }
}

} // verus!
