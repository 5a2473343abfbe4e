//! Account switching for desktop applications. Each supported application
//! is described by a plugin (its data directories, machine id, login
//! traces and flows); the library keeps the accounts, decides what every
//! flow step does, and obfuscates stored secrets.

pub mod account;
pub mod commands;
pub mod config;
pub mod crypto;
pub mod flow;
pub mod plugin;
pub mod store;
pub mod text;

pub use account::Account;
pub use account::AccountMetadata;
pub use plugin::PluginConfig;
pub use plugin::PluginManager;
pub use store::Store;
