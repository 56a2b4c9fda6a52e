//! Serving a `set`: the record line is appended to the log by the caller,
//! and the index moves only if that append succeeded.

use vstd::prelude::*;

use crate::engine::{AppendOutcome, KvsEngine, KvsError};
use crate::handler::error::ServerError;
use crate::handler::ok_response;

verus! {

/// Applies `set <key> <value>` after its record line was offered to the
/// log with outcome `log`: `OK` exactly when the append succeeded, and the
/// index is untouched when it failed.
pub fn handle(db: &mut KvsEngine, key: String, value: String, log: AppendOutcome) -> (r: Result<
    String,
    ServerError,
>)
    ensures
        log is Appended ==> final(db)@ == old(db)@.insert(key@, value@) && (match r {
            Ok(resp) => resp@ == ok_response(),
            Err(_) => false,
        }),
        log is Failed ==> final(db)@ == old(db)@,
        (match log {
            AppendOutcome::Failed(m) => r == Err::<String, ServerError>(
                ServerError::KvsError(KvsError::Io(m)),
            ),
            AppendOutcome::Appended => true,
        }),
{
    match db.set(key, value, log) {
        Ok(()) => Ok(String::from_str("OK\n")),
        Err(e) => Err(ServerError::KvsError(e)),
    }
}

} // verus!
