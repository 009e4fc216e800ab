//! Selective copying of published notes from an Obsidian vault to a blog's
//! content folder, with the settings that steer it.
//!
//! `cli`, `config`, `obsidian` and `sync` make up the tool; `args`,
//! `vault_fn` and `util` keep the earlier generation of its command line
//! and settings operations.

pub mod args;
pub mod cli;
pub mod config;
pub mod obsidian;
pub mod settings_file;
pub mod sync;
pub mod text;
pub mod util;
pub mod vault_fn;
