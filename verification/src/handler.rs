//! The per-connection decision logic: one parsed-or-failed command, the
//! outcome of the log append it required (if any), and the engine, decide
//! the single response line — or that the connection closes quietly.
//!
//! The caller runs the connection itself: it reads a line, parses it with
//! `Command::from_str`, appends the record line of `Command::to_record`
//! (if there is one) to the log under the store's exclusive lock, and
//! hands `dispatch` the outcome while still holding the lock.

pub mod delete;
pub mod error;
pub mod get;
pub mod set;

use vstd::prelude::*;

use crate::command::{Command, CommandModel, ParseError};
use crate::engine::{AppendOutcome, KvsEngine};
use crate::handler::error::ServerError;

verus! {

/// The response to a successful mutation.
pub open spec fn ok_response() -> Seq<char> {
    "OK\n"@
}

/// The response to a `get` of a bound key.
pub open spec fn value_response(v: Seq<char>) -> Seq<char> {
    v + "\n"@
}

/// The response to a `get` of an absent key.
pub open spec fn not_found_response() -> Seq<char> {
    "Key not found\n"@
}

/// The response reporting a failure: the `Error: ` prefix is the only
/// signal a client uses to tell failure from data.
pub open spec fn error_response(msg: Seq<char>) -> Seq<char> {
    "Error: "@ + msg + "\n"@
}

/// Renders the response line reporting `e`.
pub fn error_line(e: &ServerError) -> (r: String)
    ensures
        r@ == error_response(e.message_spec()),
{
    let mut s = String::from_str("Error: ");
    s.append(e.message().as_str());
    s.append("\n");
    s
}

/// Decides the response to one input line, given its parse and the outcome
/// of the log append its record required (ignored for `get`, `exit` and
/// parse failures, which append nothing). `None` means the connection
/// closes without a response, which only `exit` does.
pub fn dispatch(db: &mut KvsEngine, parsed: Result<Command, ParseError>, log: AppendOutcome) -> (r:
    Option<String>)
    ensures
        match parsed {
            Err(_) => final(db)@ == old(db)@ && (match r {
                Some(resp) => resp@ == error_response("Invalid command"@),
                None => false,
            }),
            Ok(cmd) => match cmd@ {
                CommandModel::Exit => r is None && final(db)@ == old(db)@,
                CommandModel::Get(k) => final(db)@ == old(db)@ && (match r {
                    Some(resp) => resp@ == (if old(db)@.contains_key(k) {
                        value_response(old(db)@[k])
                    } else {
                        not_found_response()
                    }),
                    None => false,
                }),
                CommandModel::Put(k, v) => match log {
                    AppendOutcome::Appended => final(db)@ == old(db)@.insert(k, v) && (match r {
                        Some(resp) => resp@ == ok_response(),
                        None => false,
                    }),
                    AppendOutcome::Failed(m) => final(db)@ == old(db)@ && (match r {
                        Some(resp) => resp@ == error_response("I/O error: "@ + m@),
                        None => false,
                    }),
                },
                CommandModel::Delete(k) => match log {
                    AppendOutcome::Appended => final(db)@ == old(db)@.remove(k) && (match r {
                        Some(resp) => resp@ == ok_response(),
                        None => false,
                    }),
                    AppendOutcome::Failed(m) => final(db)@ == old(db)@ && (match r {
                        Some(resp) => resp@ == error_response("I/O error: "@ + m@),
                        None => false,
                    }),
                },
            },
        },
{
    match parsed {
        Ok(Command::Put(key, value)) => match set::handle(db, key, value, log) {
            Ok(resp) => Some(resp),
            Err(e) => Some(error_line(&e)),
        },
        Ok(Command::Get(key)) => match get::handle(&*db, key) {
            Ok(resp) => Some(resp),
            Err(e) => Some(error_line(&e)),
        },
        Ok(Command::Delete(key)) => match delete::handle(db, key, log) {
            Ok(resp) => Some(resp),
            Err(e) => Some(error_line(&e)),
        },
        Ok(Command::Exit) => None,
        Err(_) => Some(error_line(&ServerError::InvalidCommand)),
    }
}

} // verus!
