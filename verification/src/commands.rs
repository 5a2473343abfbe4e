//! Values that the user interface's commands hand back.

use vstd::prelude::*;

use crate::store::StoreError;

verus! {

/// The error of a user-interface command, as a message.
pub enum CommandError {
    Store(String),
    Config(String),
}

impl CommandError {
    /// The command error for a store error: its message.
    pub fn from_store_error(e: &StoreError) -> (res: CommandError)
        ensures
            res matches CommandError::Store(m) && m@ == e.message_spec(),
    {
        CommandError::Store(e.message())
    }

    /// The message of the error.
    pub fn message(&self) -> (res: String)
        ensures
            res@ == match self {
                CommandError::Store(m) => m@,
                CommandError::Config(m) => m@,
            },
    {
        match self {
            CommandError::Store(m) => m.clone(),
            CommandError::Config(m) => m.clone(),
        }
    }
}

/// Where the current profile lives.
pub struct ProfileInfo {
    pub config_dir: String,
    pub user_dir: Option<String>,
    pub exists: bool,
}

} // verus!
