//! Serving a `delete`: the record line is appended to the log by the
//! caller — even for an absent key, keeping last-write-wins intact for any
//! later re-insertion — and the index moves only if that append succeeded.

use vstd::prelude::*;

use crate::engine::{AppendOutcome, KvsEngine, KvsError};
use crate::handler::error::ServerError;
use crate::handler::ok_response;

verus! {

/// Applies `delete <key>` after its record line was offered to the log
/// with outcome `log`: `OK` exactly when the append succeeded, and the
/// index is untouched when it failed.
pub fn handle(db: &mut KvsEngine, key: String, log: AppendOutcome) -> (r: Result<
    String,
    ServerError,
>)
    ensures
        log is Appended ==> final(db)@ == old(db)@.remove(key@) && (match r {
            Ok(resp) => resp@ == ok_response(),
            Err(_) => false,
        }),
        log is Failed ==> final(db)@ == old(db)@,
        (match log {
            AppendOutcome::Failed(m) => r == Err::<String, ServerError>(
                ServerError::KvsError(KvsError::Io(m)),
            ),
            AppendOutcome::Appended => true,
        }),
{
    match db.delete(key, log) {
        Ok(()) => Ok(String::from_str("OK\n")),
        Err(e) => Err(ServerError::KvsError(e)),
    }
}

} // verus!
