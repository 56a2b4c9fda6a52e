//! Serving a `get`: a pure index lookup, answered with the value's line or
//! `Key not found`. It never touches the log and cannot fail.

use vstd::prelude::*;

use crate::engine::KvsEngine;
use crate::handler::error::ServerError;
use crate::handler::{not_found_response, value_response};

verus! {

/// Answers `get <key>` against the engine.
pub fn handle(db: &KvsEngine, key: String) -> (r: Result<String, ServerError>)
    ensures
        match r {
            Ok(resp) => resp@ == (if db@.contains_key(key@) {
                value_response(db@[key@])
            } else {
                not_found_response()
            }),
            Err(_) => false,
        },
{
    match db.get(key) {
        Some(value) => Ok(value.concat("\n")),
        None => Ok(String::from_str("Key not found\n")),
    }
}

} // verus!
