//! The record log: each committed mutation is one newline-terminated text
//! line, `set <key> <value>` or `delete <key>`. This module renders records
//! to lines, classifies lines read back from the log, and defines `replay`,
//! the recovery fold that rebuilds the index from the log in order.

use vstd::prelude::*;

use crate::text::{is_ws, lemma_tokens_acc_word, lemma_tokens_acc_ws, tokenize, tokens, tokens_acc,
    valid_token};

verus! {

/// The mathematical form of one logged operation.
pub enum RecordModel {
    Put(Seq<char>, Seq<char>),
    Delete(Seq<char>),
}

/// One logged operation: a put of a value under a key, or a delete of a key.
pub enum Record {
    Put(String, String),
    Delete(String),
}

impl View for Record {
    type V = RecordModel;

    open spec fn view(&self) -> RecordModel {
        match self {
            Record::Put(k, v) => RecordModel::Put(k@, v@),
            Record::Delete(k) => RecordModel::Delete(k@),
        }
    }
}

/// A record whose key and value are single non-empty tokens, as the
/// unescaped line format requires.
pub open spec fn record_valid(r: RecordModel) -> bool {
    match r {
        RecordModel::Put(k, v) => valid_token(k) && valid_token(v),
        RecordModel::Delete(k) => valid_token(k),
    }
}

/// The log line that commits `r`.
pub open spec fn record_line_spec(r: RecordModel) -> Seq<char> {
    match r {
        RecordModel::Put(k, v) => "set "@ + k + " "@ + v + "\n"@,
        RecordModel::Delete(k) => "delete "@ + k + "\n"@,
    }
}

/// How recovery classifies one line of the log.
pub enum LineShape {
    Blank,
    Rec(RecordModel),
    Malformed,
}

/// Classification of a log line by its whitespace-separated tokens.
pub open spec fn line_shape(s: Seq<char>) -> LineShape {
    let ts = tokens(s);
    if ts.len() == 0 {
        LineShape::Blank
    } else if ts.len() == 3 && ts[0] == "set"@ {
        LineShape::Rec(RecordModel::Put(ts[1], ts[2]))
    } else if ts.len() == 2 && ts[0] == "delete"@ {
        LineShape::Rec(RecordModel::Delete(ts[1]))
    } else {
        LineShape::Malformed
    }
}

/// The effect of one record on the index: last write wins.
pub open spec fn apply_record(
    m: Map<Seq<char>, Seq<char>>,
    r: RecordModel,
) -> Map<Seq<char>, Seq<char>> {
    match r {
        RecordModel::Put(k, v) => m.insert(k, v),
        RecordModel::Delete(k) => m.remove(k),
    }
}

/// Recovery: folds the log's lines, in order, over the index `m`. Blank
/// lines are skipped; a malformed line fails the whole recovery.
pub open spec fn replay(
    lines: Seq<Seq<char>>,
    m: Map<Seq<char>, Seq<char>>,
) -> Option<Map<Seq<char>, Seq<char>>>
    decreases lines.len(),
{
    if lines.len() == 0 {
        Some(m)
    } else {
        match line_shape(lines[0]) {
            LineShape::Blank => replay(lines.drop_first(), m),
            LineShape::Rec(r) => replay(lines.drop_first(), apply_record(m, r)),
            LineShape::Malformed => None,
        }
    }
}

impl Record {
    /// Renders this record as its newline-terminated log line.
    pub fn to_line(&self) -> (r: String)
        ensures
            r@ == record_line_spec(self@),
    {
        match self {
            Record::Put(k, v) => {
                let mut s = String::from_str("set ");
                s.append(k.as_str());
                s.append(" ");
                s.append(v.as_str());
                s.append("\n");
                s
            },
            Record::Delete(k) => {
                let mut s = String::from_str("delete ");
                s.append(k.as_str());
                s.append("\n");
                s
            },
        }
    }
}

/// An exec mirror of `LineShape`, returned by `parse_record_line`.
pub enum ParsedLine {
    Blank,
    Rec(Record),
    Malformed,
}

impl View for ParsedLine {
    type V = LineShape;

    open spec fn view(&self) -> LineShape {
        match self {
            ParsedLine::Blank => LineShape::Blank,
            ParsedLine::Rec(r) => LineShape::Rec(r@),
            ParsedLine::Malformed => LineShape::Malformed,
        }
    }
}

/// Classifies one line of the log during recovery.
pub fn parse_record_line(line: &str) -> (r: ParsedLine)
    ensures
        r@ == line_shape(line@),
{
    let ts = tokenize(line);
    proof {
        assert(forall|i: int| 0 <= i < ts@.len() ==> ts.deep_view()[i] == ts@[i]@);
    }
    if ts.len() == 0 {
        ParsedLine::Blank
    } else if ts.len() == 3 && ts[0] == String::from_str("set") {
        ParsedLine::Rec(Record::Put(ts[1].clone(), ts[2].clone()))
    } else if ts.len() == 2 && ts[0] == String::from_str("delete") {
        ParsedLine::Rec(Record::Delete(ts[1].clone()))
    } else {
        ParsedLine::Malformed
    }
}

/// The tokens of a rendered put line are exactly `set`, the key, the value.
pub proof fn lemma_tokens_put_line(k: Seq<char>, v: Seq<char>)
    requires
        valid_token(k),
        valid_token(v),
    ensures
        tokens("set "@ + k + " "@ + v + "\n"@) == seq!["set"@, k, v],
{
    reveal_strlit("set ");
    reveal_strlit("set");
    reveal_strlit(" ");
    reveal_strlit("\n");
    let line = "set "@ + k + " "@ + v + "\n"@;
    let d = v + seq!['\n'];
    let c = seq![' '] + d;
    let b = k + c;
    let a = seq![' '] + b;
    assert(valid_token("set"@)) by {
        assert(!is_ws("set"@[0]));
        assert(!is_ws("set"@[1]));
        assert(!is_ws("set"@[2]));
    }
    assert(line =~= "set"@ + a);
    lemma_tokens_acc_word("set"@, a, Seq::empty());
    assert(Seq::<char>::empty() + "set"@ =~= "set"@);
    lemma_tokens_acc_ws(' ', b, "set"@);
    lemma_tokens_acc_word(k, c, Seq::empty());
    assert(Seq::<char>::empty() + k =~= k);
    lemma_tokens_acc_ws(' ', d, k);
    lemma_tokens_acc_word(v, seq!['\n'], Seq::empty());
    assert(Seq::<char>::empty() + v =~= v);
    assert(seq!['\n'] =~= seq!['\n'] + Seq::<char>::empty());
    lemma_tokens_acc_ws('\n', Seq::empty(), v);
    assert(tokens(line) == seq!["set"@] + (seq![k] + (seq![v] + tokens_acc(
        Seq::empty(),
        Seq::empty(),
    ))));
    assert(seq!["set"@] + (seq![k] + (seq![v] + Seq::<Seq<char>>::empty())) =~= seq![
        "set"@,
        k,
        v,
    ]);
}

/// The tokens of a rendered delete line are exactly `delete` and the key.
pub proof fn lemma_tokens_delete_line(k: Seq<char>)
    requires
        valid_token(k),
    ensures
        tokens("delete "@ + k + "\n"@) == seq!["delete"@, k],
{
    reveal_strlit("delete ");
    reveal_strlit("delete");
    reveal_strlit("\n");
    let line = "delete "@ + k + "\n"@;
    let c = k + seq!['\n'];
    let a = seq![' '] + c;
    assert(valid_token("delete"@)) by {
        assert(!is_ws("delete"@[0]));
        assert(!is_ws("delete"@[1]));
        assert(!is_ws("delete"@[2]));
        assert(!is_ws("delete"@[3]));
        assert(!is_ws("delete"@[4]));
        assert(!is_ws("delete"@[5]));
    }
    assert(line =~= "delete"@ + a);
    lemma_tokens_acc_word("delete"@, a, Seq::empty());
    assert(Seq::<char>::empty() + "delete"@ =~= "delete"@);
    lemma_tokens_acc_ws(' ', c, "delete"@);
    lemma_tokens_acc_word(k, seq!['\n'], Seq::empty());
    assert(Seq::<char>::empty() + k =~= k);
    assert(seq!['\n'] =~= seq!['\n'] + Seq::<char>::empty());
    lemma_tokens_acc_ws('\n', Seq::empty(), k);
    assert(tokens(line) == seq!["delete"@] + (seq![k] + tokens_acc(Seq::empty(), Seq::empty())));
    assert(seq!["delete"@] + (seq![k] + Seq::<Seq<char>>::empty()) =~= seq!["delete"@, k]);
}

/// A valid record's rendered line is classified back as that record.
pub proof fn lemma_record_line_shape(r: RecordModel)
    requires
        record_valid(r),
    ensures
        line_shape(record_line_spec(r)) == LineShape::Rec(r),
{
    match r {
        RecordModel::Put(k, v) => {
            lemma_tokens_put_line(k, v);
        },
        RecordModel::Delete(k) => {
            lemma_tokens_delete_line(k);
            reveal_strlit("set");
            reveal_strlit("delete");
            assert("delete"@.len() != "set"@.len());
        },
    }
}

/// Replaying one more line applies that line's record to the replayed map.
pub proof fn lemma_replay_snoc(lines: Seq<Seq<char>>, l: Seq<char>, m: Map<Seq<char>, Seq<char>>)
    ensures
        replay(lines.push(l), m) == (match replay(lines, m) {
            Some(m2) => (match line_shape(l) {
                LineShape::Blank => Some(m2),
                LineShape::Rec(r) => Some(apply_record(m2, r)),
                LineShape::Malformed => None,
            }),
            None => None::<Map<Seq<char>, Seq<char>>>,
        }),
    decreases lines.len(),
{
    let e = Seq::<Seq<char>>::empty();
    if lines.len() == 0 {
        assert(lines.push(l)[0] == l);
        assert(lines.push(l).drop_first() =~= e);
        assert(replay(lines, m) == Some(m));
        match line_shape(l) {
            LineShape::Blank => {
                assert(replay(lines.push(l), m) == replay(e, m));
                assert(replay(e, m) == Some(m));
            },
            LineShape::Rec(r) => {
                assert(replay(lines.push(l), m) == replay(e, apply_record(m, r)));
                assert(replay(e, apply_record(m, r)) == Some(apply_record(m, r)));
            },
            LineShape::Malformed => {
                assert(replay(lines.push(l), m) == None::<Map<Seq<char>, Seq<char>>>);
            },
        }
    } else {
        assert(lines.push(l)[0] == lines[0]);
        assert(lines.push(l).drop_first() =~= lines.drop_first().push(l));
        match line_shape(lines[0]) {
            LineShape::Blank => {
                lemma_replay_snoc(lines.drop_first(), l, m);
                assert(replay(lines.push(l), m) == replay(lines.drop_first().push(l), m));
                assert(replay(lines, m) == replay(lines.drop_first(), m));
            },
            LineShape::Rec(r) => {
                lemma_replay_snoc(lines.drop_first(), l, apply_record(m, r));
                assert(replay(lines.push(l), m) == replay(
                    lines.drop_first().push(l),
                    apply_record(m, r),
                ));
                assert(replay(lines, m) == replay(lines.drop_first(), apply_record(m, r)));
            },
            LineShape::Malformed => {
                assert(replay(lines.push(l), m) == None::<Map<Seq<char>, Seq<char>>>);
                assert(replay(lines, m) == None::<Map<Seq<char>, Seq<char>>>);
            },
        }
    }
}

/// The last-write-wins fold of a sequence of operations over an index.
pub open spec fn apply_records(
    m: Map<Seq<char>, Seq<char>>,
    ops: Seq<RecordModel>,
) -> Map<Seq<char>, Seq<char>>
    decreases ops.len(),
{
    if ops.len() == 0 {
        m
    } else {
        apply_records(apply_record(m, ops[0]), ops.drop_first())
    }
}

/// Replaying the rendered lines of any sequence of well-formed operations
/// over an index yields exactly the last-write-wins fold of that sequence;
/// in particular, a fresh engine recovered from a log holding those lines
/// and nothing else carries the fold over the empty index.
pub proof fn lemma_replay_of_record_lines(ops: Seq<RecordModel>, m: Map<Seq<char>, Seq<char>>)
    requires
        forall|i: int| 0 <= i < ops.len() ==> record_valid(#[trigger] ops[i]),
    ensures
        replay(ops.map_values(|r: RecordModel| record_line_spec(r)), m) == Some(
            apply_records(m, ops),
        ),
    decreases ops.len(),
{
    let lines = ops.map_values(|r: RecordModel| record_line_spec(r));
    if ops.len() == 0 {
        assert(lines.len() == 0);
    } else {
        assert(lines[0] == record_line_spec(ops[0]));
        lemma_record_line_shape(ops[0]);
        assert(lines.drop_first() =~= ops.drop_first().map_values(
            |r: RecordModel| record_line_spec(r),
        ));
        assert(forall|i: int|
            0 <= i < ops.drop_first().len() ==> record_valid(#[trigger] ops.drop_first()[i]));
        lemma_replay_of_record_lines(ops.drop_first(), apply_record(m, ops[0]));
        assert(replay(lines, m) == replay(lines.drop_first(), apply_record(m, ops[0])));
    }
}

/// The index stays in step with the log: if the log so far replays to
/// `m`, then the log extended with one committed record's line replays to
/// `m` with that record applied — what the engine does in memory is what
/// recovery would rebuild.
pub proof fn lemma_log_correspondence(
    lines: Seq<Seq<char>>,
    m: Map<Seq<char>, Seq<char>>,
    r: RecordModel,
)
    requires
        record_valid(r),
        replay(lines, Map::empty()) == Some(m),
    ensures
        replay(lines.push(record_line_spec(r)), Map::empty()) == Some(apply_record(m, r)),
{
    lemma_record_line_shape(r);
    lemma_replay_snoc(lines, record_line_spec(r), Map::empty());
}

/// Round trip of one `set`: a log that replays to `m`, extended with the
/// rendered line of `set k v`, replays to `m` with `k` bound to `v` — so
/// an engine restarted against that log answers `get k` with `v`.
pub proof fn lemma_set_round_trip(
    lines: Seq<Seq<char>>,
    m: Map<Seq<char>, Seq<char>>,
    k: Seq<char>,
    v: Seq<char>,
)
    requires
        valid_token(k),
        valid_token(v),
        replay(lines, Map::empty()) == Some(m),
    ensures
        replay(lines.push(record_line_spec(RecordModel::Put(k, v))), Map::empty()) == Some(
            m.insert(k, v),
        ),
        m.insert(k, v).contains_key(k),
        m.insert(k, v)[k] == v,
{
    lemma_record_line_shape(RecordModel::Put(k, v));
    lemma_replay_snoc(lines, record_line_spec(RecordModel::Put(k, v)), Map::empty());
}

} // verus!
