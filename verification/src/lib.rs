//! Configuration lifecycle of a personal knowledge tool: the configuration
//! record, the edits that the `config` commands make to it, its TOML form, and
//! the single pass from the stored file to the file to store.

pub mod cli;
pub mod config;
pub mod document;
pub mod error;
pub mod schema;
pub mod store;

pub use cli::{CliArgs, CliCommands, ConfigCommands};
pub use config::{ConfigView, ProviderConfig, ProviderView, SecondBrainConfig};
pub use error::ConfigError;
pub use store::{read_config, write_config, ConfigFile, Outcome, CONFIG_DIR, CONFIG_FILE};
