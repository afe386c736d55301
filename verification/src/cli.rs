//! The commands of the tool, as values.
//!
//! Reading them from the process's arguments is left to the program around
//! this library; here they are what the dispatch works on.

use vstd::prelude::*;

verus! {

/// The parsed command line: one command.
#[derive(Debug)]
pub struct CliArgs {
    pub command: CliCommands,
}

/// The top-level commands. Only `config` does anything yet.
#[derive(Debug)]
pub enum CliCommands {
    /// Store some content.
    Store { content: String },
    /// Read a file and store it.
    Read { filepath: String },
    /// Send a prompt to the assistant.
    Talk { prompt: String },
    /// Manage the configuration.
    Config { command: ConfigCommands },
}

/// The sub-commands of `config`.
#[derive(Debug)]
pub enum ConfigCommands {
    /// Print the configuration.
    Show,
    /// Insert or replace a provider.
    Add { name: String, description: String, api_key: String },
    /// Delete a provider, if it is there.
    Remove { name: String },
    /// Select a provider.
    SetCurrent { name: String },
}

} // verus!
