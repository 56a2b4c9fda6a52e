//! The client side of the wire protocol: a client sends one command line
//! (`Command::wire_line`) and reads one response line back. The only
//! signal separating failure from data is the `Error:` prefix; this module
//! classifies a response line and strips its surrounding whitespace.

use vstd::prelude::*;

use crate::text::{trim, trimmed};

verus! {

/// A client-side failure: a local I/O error, carried as its message, or an
/// error line reported by the server.
#[derive(Debug)]
pub enum ClientError {
    Io(String),
    Server(String),
}

/// A response line that reports a failure rather than data.
pub open spec fn is_error_line(s: Seq<char>) -> bool {
    s.len() >= 6 && s.subrange(0, 6) == "Error:"@
}

/// Classifies one response line: a server-reported error becomes
/// `ClientError::Server`, anything else is data; both are returned trimmed.
pub fn parse_response(line: &str) -> (r: Result<String, ClientError>)
    ensures
        match r {
            Ok(v) => !is_error_line(line@) && v@ == trimmed(line@),
            Err(e) => is_error_line(line@) && (match e {
                ClientError::Server(m) => m@ == trimmed(line@),
                ClientError::Io(_) => false,
            }),
        },
{
    let n = line.unicode_len();
    let reports_error: bool;
    if n < 6 {
        reports_error = false;
    } else {
        reports_error = line.get_char(0) == 'E' && line.get_char(1) == 'r' && line.get_char(2)
            == 'r' && line.get_char(3) == 'o' && line.get_char(4) == 'r' && line.get_char(5) == ':';
    }
    proof {
        reveal_strlit("Error:");
        if reports_error {
            assert(line@.subrange(0, 6) =~= "Error:"@);
        } else if n >= 6 {
            assert(!is_error_line(line@)) by {
                if line@.subrange(0, 6) == "Error:"@ {
                    assert(line@[0] == line@.subrange(0, 6)[0]);
                    assert(line@[1] == line@.subrange(0, 6)[1]);
                    assert(line@[2] == line@.subrange(0, 6)[2]);
                    assert(line@[3] == line@.subrange(0, 6)[3]);
                    assert(line@[4] == line@.subrange(0, 6)[4]);
                    assert(line@[5] == line@.subrange(0, 6)[5]);
                }
            }
        }
    }
    let body = trim(line);
    if reports_error {
        Err(ClientError::Server(body))
    } else {
        Ok(body)
    }
}

} // verus!
