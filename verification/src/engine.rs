//! The storage engine: one log, one index, and the rule that makes the
//! store durable — a mutation's record reaches the log before the index
//! reflects it, and a failed append leaves the index untouched.
//!
//! The engine owns the in-memory index; the durable file itself is held by
//! the caller, who appends each record's line (`Record::to_line`) and hands
//! the engine the outcome of that append. The contracts below then pin the
//! index: it moves exactly when the log accepted the record.

use vstd::prelude::*;

use crate::index::Index;
use crate::log::{apply_record, replay, ParsedLine, Record};
use crate::log::parse_record_line;

verus! {

/// An engine failure: an I/O error reported by the log, carried as its
/// message, or a malformed record met during recovery.
#[derive(Debug)]
pub enum KvsError {
    Io(String),
    ParseError,
}

impl KvsError {
    /// The text of this error, as a response line reports it.
    pub open spec fn message_spec(&self) -> Seq<char> {
        match self {
            KvsError::Io(m) => "I/O error: "@ + m@,
            KvsError::ParseError => "Parse error: invalid log entry"@,
        }
    }

    /// Renders the error text.
    pub fn message(&self) -> (r: String)
        ensures
            r@ == self.message_spec(),
    {
        match self {
            KvsError::Io(m) => {
                let mut s = String::from_str("I/O error: ");
                s.append(m.as_str());
                s
            },
            KvsError::ParseError => String::from_str("Parse error: invalid log entry"),
        }
    }
}

/// What the durable append of a record line reported: the log accepted the
/// line, or failed with an I/O error message.
#[derive(Debug)]
pub enum AppendOutcome {
    Appended,
    Failed(String),
}

/// The storage engine: the in-memory index rebuilt from, and kept in step
/// with, the record log. Its view is the map the index denotes.
pub struct KvsEngine {
    index: Index,
}

impl View for KvsEngine {
    type V = Map<Seq<char>, Seq<char>>;

    closed spec fn view(&self) -> Map<Seq<char>, Seq<char>> {
        self.index@
    }
}

impl KvsEngine {
    /// Recovery: builds an engine by replaying the log's lines in order.
    /// Blank lines are skipped; any line that is not a well-formed `set` or
    /// `delete` record aborts construction, so an engine never serves from
    /// a log it could not read back in full.
    pub fn new(lines: &Vec<String>) -> (r: Result<KvsEngine, KvsError>)
        ensures
            match r {
                Ok(e) => replay(lines.deep_view(), Map::empty()) == Some(e@),
                Err(err) => replay(lines.deep_view(), Map::empty()) is None && err
                    == KvsError::ParseError,
            },
    {
        let ghost dv = lines.deep_view();
        proof {
            assert(dv.len() == lines@.len());
            assert(dv.skip(0) =~= dv);
        }
        let mut index = Index::new();
        let n = lines.len();
        let mut i: usize = 0;
        while i < n
            invariant
                i <= n,
                n == lines@.len(),
                dv == lines.deep_view(),
                dv.len() == n,
                replay(dv.skip(i as int), index@) == replay(dv, Map::empty()),
            decreases n - i,
        {
            let ghost rem = dv.skip(i as int);
            proof {
                assert(rem[0] == dv[i as int]);
                assert(dv[i as int] == lines@[i as int]@);
                assert(rem.drop_first() =~= dv.skip(i as int + 1));
            }
            let ghost before = index@;
            match parse_record_line(lines[i].as_str()) {
                ParsedLine::Blank => {
                    proof {
                        assert(replay(rem, before) == replay(rem.drop_first(), before));
                    }
                },
                ParsedLine::Rec(rec) => {
                    let ghost rm = rec@;
                    proof {
                        assert(replay(rem, before) == replay(
                            rem.drop_first(),
                            apply_record(before, rm),
                        ));
                    }
                    match rec {
                        Record::Put(key, value) => {
                            index.insert(key, value);
                        },
                        Record::Delete(key) => {
                            index.remove(&key);
                        },
                    }
                    proof {
                        assert(index@ == apply_record(before, rm));
                    }
                },
                ParsedLine::Malformed => {
                    proof {
                        assert(replay(rem, before) is None);
                    }
                    return Err(KvsError::ParseError);
                },
            }
            i = i + 1;
        }
        proof {
            assert(dv.skip(n as int) =~= Seq::<Seq<char>>::empty());
        }
        Ok(KvsEngine { index })
    }

    /// Applies a `set` whose record line the caller has offered to the log:
    /// on a successful append the key is bound to the value; on a failed
    /// append the index is exactly as before and the I/O error is returned.
    pub fn set(&mut self, key: String, value: String, log: AppendOutcome) -> (r: Result<
        (),
        KvsError,
    >)
        ensures
            log is Appended ==> r is Ok && final(self)@ == old(self)@.insert(key@, value@),
            log is Failed ==> final(self)@ == old(self)@,
            (match log {
                AppendOutcome::Failed(m) => r == Err::<(), KvsError>(KvsError::Io(m)),
                AppendOutcome::Appended => true,
            }),
    {
        match log {
            AppendOutcome::Appended => {
                self.index.insert(key, value);
                Ok(())
            },
            AppendOutcome::Failed(m) => Err(KvsError::Io(m)),
        }
    }

    /// A pure index lookup: never touches the log, and cannot fail — an
    /// absent key is a normal outcome, not an error.
    pub fn get(&self, key: String) -> (r: Option<String>)
        ensures
            match r {
                Some(v) => self@.contains_key(key@) && v@ == self@[key@],
                None => !self@.contains_key(key@),
            },
    {
        self.index.get(&key)
    }

    /// Applies a `delete` whose record line the caller has offered to the
    /// log. A delete is logged and applied even for an absent key (removal
    /// is then a no-op); a failed append leaves the index untouched.
    pub fn delete(&mut self, key: String, log: AppendOutcome) -> (r: Result<(), KvsError>)
        ensures
            log is Appended ==> r is Ok && final(self)@ == old(self)@.remove(key@),
            log is Failed ==> final(self)@ == old(self)@,
            (match log {
                AppendOutcome::Failed(m) => r == Err::<(), KvsError>(KvsError::Io(m)),
                AppendOutcome::Appended => true,
            }),
    {
        match log {
            AppendOutcome::Appended => {
                self.index.remove(&key);
                Ok(())
            },
            AppendOutcome::Failed(m) => Err(KvsError::Io(m)),
        }
    }
}

/// Deleting a key twice leaves the same index as deleting it once, and the
/// key is absent afterwards: deleting an absent key is a no-op, so both
/// deletes succeed and the second changes nothing.
pub proof fn lemma_delete_idempotent(m: Map<Seq<char>, Seq<char>>, k: Seq<char>)
    ensures
        m.remove(k).remove(k) == m.remove(k),
        !m.remove(k).contains_key(k),
{
    assert(m.remove(k).remove(k) =~= m.remove(k));
}

} // verus!
