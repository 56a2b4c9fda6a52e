//! Failures a connection can meet while serving one command: the shared
//! lock could not be taken, the engine failed, or the command was
//! malformed. Each is reported to the client as a single error line.

use vstd::prelude::*;

use crate::engine::KvsError;

verus! {

/// A per-connection, per-operation failure.
#[derive(Debug)]
pub enum ServerError {
    LockError,
    KvsError(KvsError),
    InvalidCommand,
}

impl ServerError {
    /// The text of this error, as a response line reports it.
    pub open spec fn message_spec(&self) -> Seq<char> {
        match self {
            ServerError::LockError => "Internal server error"@,
            ServerError::KvsError(e) => e.message_spec(),
            ServerError::InvalidCommand => "Invalid command"@,
        }
    }

    /// Renders the error text.
    pub fn message(&self) -> (r: String)
        ensures
            r@ == self.message_spec(),
    {
        match self {
            ServerError::LockError => String::from_str("Internal server error"),
            ServerError::KvsError(e) => e.message(),
            ServerError::InvalidCommand => String::from_str("Invalid command"),
        }
    }
}

} // verus!
