//! Loading, editing and saving as one pass over plain values.
//!
//! The program around this library looks at the configuration file and hands
//! over what it found, a [`ConfigFile`]; it gets back what to print and what
//! to store, an [`Outcome`], or the error to report. Nothing here touches
//! the file system. Nothing guards the file against two runs at once: the
//! run that stores last wins.

use crate::cli::{CliArgs, CliCommands, ConfigCommands};
use crate::config::{text_view, ConfigView, ProviderView, SecondBrainConfig};
use crate::error::ConfigError;
use crate::schema::{
    parse_config, parse_failure, parsed_config, render_config, rendered_config,
};
use vstd::prelude::*;

verus! {

/// The directory of the configuration file, below the user's configuration
/// home.
pub const CONFIG_DIR: &'static str = "second-brain";

/// The name of the configuration file.
pub const CONFIG_FILE: &'static str = "config.toml";

/// What was found at the path of the configuration file.
#[derive(Debug)]
pub enum ConfigFile {
    /// No file is there.
    Absent,
    /// A file is there and could not be read; the message says why.
    Unreadable(String),
    /// A file is there, with this text.
    Contents(String),
}

/// What a run leaves to do: the text to print, if any, and the text to
/// store in the configuration file.
#[derive(Debug)]
pub struct Outcome {
    pub output: Option<String>,
    pub contents: String,
}

/// The configuration after a command.
pub open spec fn applied(config: ConfigView, command: CliCommands) -> ConfigView {
    match command {
        CliCommands::Config { command: ConfigCommands::Add { name, description, api_key } } => {
            config.with_provider(
                name@,
                ProviderView { description: Some(description@), api_key: Some(api_key@) },
            )
        },
        CliCommands::Config { command: ConfigCommands::Remove { name } } => {
            config.without_provider(name@)
        },
        CliCommands::Config { command: ConfigCommands::SetCurrent { name } } => config.with_current(name@),
        _ => config,
    }
}

/// Whether a command prints the configuration.
pub open spec fn shows(command: CliCommands) -> bool {
    command matches CliCommands::Config { command: ConfigCommands::Show }
}

/// The configuration that a run starts from: the empty one where no file is
/// there, the one that the file's text stands for where it stands for one.
/// `None` where the file cannot be read or its text stands for none.
pub open spec fn loaded(file: ConfigFile) -> Option<ConfigView> {
    match file {
        ConfigFile::Absent => Some(ConfigView::empty()),
        ConfigFile::Unreadable(_) => None,
        ConfigFile::Contents(text) => parsed_config(text@),
    }
}

/// Loads the configuration from what was found at its path. No file is no
/// error: the result is then `None`, and the caller starts from the empty
/// configuration. A file that cannot be read is an I/O error with the
/// message given; a text that stands for no configuration is a parse error.
pub fn read_config(file: &ConfigFile) -> (r: Result<Option<SecondBrainConfig>, ConfigError>)
    ensures
        match *file {
            ConfigFile::Absent => r is Ok && r->Ok_0 is None,
            ConfigFile::Unreadable(message) => r is Err && r->Err_0 == ConfigError::Io(message),
            ConfigFile::Contents(text) => match parsed_config(text@) {
                Some(config) => r is Ok && r->Ok_0 is Some && r->Ok_0->Some_0@ == config,
                None => r is Err && parse_failure(text@, r->Err_0),
            },
        },
{
    match file {
        ConfigFile::Absent => Ok(None),
        ConfigFile::Unreadable(message) => Err(ConfigError::Io(message.clone())),
        ConfigFile::Contents(text) => match parse_config(text.as_str()) {
            Ok(config) => Ok(Some(config)),
            Err(error) => Err(error),
        },
    }
}

/// The text to store for a configuration. Where it cannot be rendered, the
/// failure is a serialization error and nothing is to be stored.
pub fn write_config(config: &SecondBrainConfig) -> (r: Result<String, ConfigError>)
    ensures
        match rendered_config(config@) {
            Some(text) => r is Ok && r->Ok_0@ == text,
            None => r is Err && r->Err_0 is Serialization,
        },
{
    render_config(config)
}

/// Carries out a command on the configuration. `add` inserts or replaces,
/// `remove` deletes if present, `set` selects without asking whether the
/// provider exists, and every other command leaves the configuration as it
/// is. `show` hands back the configuration's text to print.
pub fn dispatch(config: &mut SecondBrainConfig, command: CliCommands) -> (r: Result<
    Option<String>,
    ConfigError,
>)
    ensures
        final(config)@ == applied(old(config)@, command),
        if shows(command) {
            match rendered_config(old(config)@) {
                Some(text) => r is Ok && text_view(r->Ok_0) == Some(text),
                None => r is Err && r->Err_0 is Serialization,
            }
        } else {
            r is Ok && r->Ok_0 is None
        },
{
    match command {
        CliCommands::Config { command } => match command {
            ConfigCommands::Show => match render_config(config) {
                Ok(text) => Ok(Some(text)),
                Err(error) => Err(error),
            },
            ConfigCommands::Add { name, description, api_key } => {
                config.add_provider(name, description, api_key);
                Ok(None)
            },
            ConfigCommands::Remove { name } => {
                config.remove_provider(name.as_str());
                Ok(None)
            },
            ConfigCommands::SetCurrent { name } => {
                config.set_current_provider(name);
                Ok(None)
            },
        },
        _ => Ok(None),
    }
}

/// What a whole run comes to, from the command and from what was found at
/// the configuration path: `None` where the run fails, else the text to
/// print, if any, and the text to store.
pub open spec fn run_outcome(command: CliCommands, file: ConfigFile) -> Option<
    (Option<Seq<char>>, Seq<char>),
> {
    match loaded(file) {
        None => None,
        Some(start) => match rendered_config(applied(start, command)) {
            None => None,
            Some(text) => Some((if shows(command) { Some(text) } else { None }, text)),
        },
    }
}

/// One run of the tool: load the configuration, or start from the empty one
/// where no file is there; carry out the command; render the configuration
/// for storing, whether or not the command changed it.
///
/// A failure at any step ends the run with its error and leaves nothing to
/// store: a file that could not be read or parsed stays as it is.
pub fn run(args: CliArgs, file: &ConfigFile) -> (r: Result<Outcome, ConfigError>)
    ensures
        match run_outcome(args.command, *file) {
            Some((output, contents)) => r is Ok && text_view(r->Ok_0.output) == output
                && r->Ok_0.contents@ == contents,
            None => r is Err,
        },
        r is Err ==> match *file {
            ConfigFile::Unreadable(message) => r->Err_0 == ConfigError::Io(message),
            ConfigFile::Contents(text) if parsed_config(text@) is None => parse_failure(
                text@,
                r->Err_0,
            ),
            _ => r->Err_0 is Serialization,
        },
{
    let mut config = match read_config(file) {
        Ok(Some(config)) => config,
        Ok(None) => SecondBrainConfig::default(),
        Err(error) => {
            return Err(error);
        },
    };
    let output = match dispatch(&mut config, args.command) {
        Ok(output) => output,
        Err(error) => {
            return Err(error);
        },
    };
    match write_config(&config) {
        Ok(contents) => Ok(Outcome { output, contents }),
        Err(error) => Err(error),
    }
}

} // verus!
