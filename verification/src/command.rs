//! The wire command protocol: one trimmed, whitespace-split input line is
//! either `set <key> <value>`, `get <key>`, `delete <key>`, `exit`, or a
//! parse error. Values with embedded spaces are not supported: splitting is
//! purely on whitespace, a stated limitation of the unescaped format.

use vstd::prelude::*;

use crate::log::{Record, RecordModel};
use crate::text::{is_ws, lemma_tokens_acc_word, lemma_tokens_acc_ws, tokenize, tokens,
    valid_token};

verus! {

/// The mathematical form of one wire command.
pub enum CommandModel {
    Put(Seq<char>, Seq<char>),
    Get(Seq<char>),
    Delete(Seq<char>),
    Exit,
}

/// One parsed wire command.
pub enum Command {
    Put(String, String),
    Get(String),
    Delete(String),
    Exit,
}

impl View for Command {
    type V = CommandModel;

    open spec fn view(&self) -> CommandModel {
        match self {
            Command::Put(k, v) => CommandModel::Put(k@, v@),
            Command::Get(k) => CommandModel::Get(k@),
            Command::Delete(k) => CommandModel::Delete(k@),
            Command::Exit => CommandModel::Exit,
        }
    }
}

/// A malformed wire command.
#[derive(Debug)]
pub struct ParseError;

/// Classification of an input line by its whitespace-separated tokens.
pub open spec fn parse_command_spec(s: Seq<char>) -> Option<CommandModel> {
    let ts = tokens(s);
    if ts.len() == 3 && ts[0] == "set"@ {
        Some(CommandModel::Put(ts[1], ts[2]))
    } else if ts.len() == 2 && ts[0] == "get"@ {
        Some(CommandModel::Get(ts[1]))
    } else if ts.len() == 2 && ts[0] == "delete"@ {
        Some(CommandModel::Delete(ts[1]))
    } else if ts.len() == 1 && ts[0] == "exit"@ {
        Some(CommandModel::Exit)
    } else {
        None
    }
}

/// The line a client sends for a command.
pub open spec fn wire_line_spec(c: CommandModel) -> Seq<char> {
    match c {
        CommandModel::Put(k, v) => "set "@ + k + " "@ + v + "\n"@,
        CommandModel::Get(k) => "get "@ + k + "\n"@,
        CommandModel::Delete(k) => "delete "@ + k + "\n"@,
        CommandModel::Exit => "exit\n"@,
    }
}

/// A command whose key and value are single non-empty tokens.
pub open spec fn command_valid(c: CommandModel) -> bool {
    match c {
        CommandModel::Put(k, v) => valid_token(k) && valid_token(v),
        CommandModel::Get(k) => valid_token(k),
        CommandModel::Delete(k) => valid_token(k),
        CommandModel::Exit => true,
    }
}

impl Command {
    /// Parses one input line into a command, or fails on any line that is
    /// not one of the four well-formed shapes (the empty line included).
    pub fn from_str(s: &str) -> (r: Result<Command, ParseError>)
        ensures
            match r {
                Ok(c) => parse_command_spec(s@) == Some(c@),
                Err(_) => parse_command_spec(s@) is None,
            },
    {
        let ts = tokenize(s);
        proof {
            assert(ts.deep_view().len() == ts@.len());
            assert(forall|i: int| 0 <= i < ts@.len() ==> ts.deep_view()[i] == ts@[i]@);
        }
        if ts.len() == 3 && ts[0] == String::from_str("set") {
            Ok(Command::Put(ts[1].clone(), ts[2].clone()))
        } else if ts.len() == 2 && ts[0] == String::from_str("get") {
            Ok(Command::Get(ts[1].clone()))
        } else if ts.len() == 2 && ts[0] == String::from_str("delete") {
            Ok(Command::Delete(ts[1].clone()))
        } else if ts.len() == 1 && ts[0] == String::from_str("exit") {
            Ok(Command::Exit)
        } else {
            Err(ParseError)
        }
    }

    /// Renders this command as the line a client sends.
    pub fn wire_line(&self) -> (r: String)
        ensures
            r@ == wire_line_spec(self@),
    {
        match self {
            Command::Put(k, v) => {
                let mut s = String::from_str("set ");
                s.append(k.as_str());
                s.append(" ");
                s.append(v.as_str());
                s.append("\n");
                s
            },
            Command::Get(k) => {
                let mut s = String::from_str("get ");
                s.append(k.as_str());
                s.append("\n");
                s
            },
            Command::Delete(k) => {
                let mut s = String::from_str("delete ");
                s.append(k.as_str());
                s.append("\n");
                s
            },
            Command::Exit => String::from_str("exit\n"),
        }
    }

    /// The record this command commits to the log, if it mutates the store:
    /// a put for `set`, a delete for `delete`, nothing for `get` and `exit`.
    pub fn to_record(&self) -> (r: Option<Record>)
        ensures
            match self@ {
                CommandModel::Put(k, v) => (match r {
                    Some(rec) => rec@ == RecordModel::Put(k, v),
                    None => false,
                }),
                CommandModel::Delete(k) => (match r {
                    Some(rec) => rec@ == RecordModel::Delete(k),
                    None => false,
                }),
                CommandModel::Get(_) => r is None,
                CommandModel::Exit => r is None,
            },
    {
        match self {
            Command::Put(k, v) => Some(Record::Put(k.clone(), v.clone())),
            Command::Delete(k) => Some(Record::Delete(k.clone())),
            Command::Get(_) => None,
            Command::Exit => None,
        }
    }
}

/// Any command the parser accepts has well-formed key and value tokens —
/// so the record a mutating command logs renders a line that recovery
/// reads back as exactly the same operation.
pub proof fn lemma_parsed_command_valid(s: Seq<char>)
    ensures
        match parse_command_spec(s) {
            Some(c) => command_valid(c),
            None => true,
        },
{
    crate::text::lemma_tokens_valid(s);
}

/// The tokens of a rendered `get` line are exactly `get` and the key.
proof fn lemma_tokens_get_line(k: Seq<char>)
    requires
        valid_token(k),
    ensures
        tokens("get "@ + k + "\n"@) == seq!["get"@, k],
{
    reveal_strlit("get ");
    reveal_strlit("get");
    reveal_strlit("\n");
    let line = "get "@ + k + "\n"@;
    let c = k + seq!['\n'];
    let a = seq![' '] + c;
    assert(valid_token("get"@)) by {
        assert(!is_ws("get"@[0]));
        assert(!is_ws("get"@[1]));
        assert(!is_ws("get"@[2]));
    }
    assert(line =~= "get"@ + a);
    lemma_tokens_acc_word("get"@, a, Seq::empty());
    assert(Seq::<char>::empty() + "get"@ =~= "get"@);
    lemma_tokens_acc_ws(' ', c, "get"@);
    lemma_tokens_acc_word(k, seq!['\n'], Seq::empty());
    assert(Seq::<char>::empty() + k =~= k);
    assert(seq!['\n'] =~= seq!['\n'] + Seq::<char>::empty());
    lemma_tokens_acc_ws('\n', Seq::empty(), k);
    assert(tokens(line) == seq!["get"@] + (seq![k] + crate::text::tokens_acc(
        Seq::empty(),
        Seq::empty(),
    )));
    assert(seq!["get"@] + (seq![k] + Seq::<Seq<char>>::empty()) =~= seq!["get"@, k]);
}

/// The only token of the rendered `exit` line is `exit`.
proof fn lemma_tokens_exit_line()
    ensures
        tokens("exit\n"@) == seq!["exit"@],
{
    reveal_strlit("exit\n");
    reveal_strlit("exit");
    assert(valid_token("exit"@)) by {
        assert(!is_ws("exit"@[0]));
        assert(!is_ws("exit"@[1]));
        assert(!is_ws("exit"@[2]));
        assert(!is_ws("exit"@[3]));
    }
    assert("exit\n"@ =~= "exit"@ + (seq!['\n'] + Seq::<char>::empty()));
    lemma_tokens_acc_word("exit"@, seq!['\n'] + Seq::<char>::empty(), Seq::empty());
    assert(Seq::<char>::empty() + "exit"@ =~= "exit"@);
    lemma_tokens_acc_ws('\n', Seq::empty(), "exit"@);
    assert(seq!["exit"@] + Seq::<Seq<char>>::empty() =~= seq!["exit"@]);
}

/// Round trip over the wire: the line a client sends for a well-formed
/// command parses back to exactly that command.
pub proof fn lemma_wire_round_trip(c: CommandModel)
    requires
        command_valid(c),
    ensures
        parse_command_spec(wire_line_spec(c)) == Some(c),
{
    reveal_strlit("set");
    reveal_strlit("get");
    reveal_strlit("delete");
    reveal_strlit("exit");
    match c {
        CommandModel::Put(k, v) => {
            crate::log::lemma_tokens_put_line(k, v);
        },
        CommandModel::Get(k) => {
            lemma_tokens_get_line(k);
            assert("get"@.len() != "set"@.len() || "get"@[0] != "set"@[0]);
        },
        CommandModel::Delete(k) => {
            crate::log::lemma_tokens_delete_line(k);
            assert("delete"@.len() != "get"@.len());
        },
        CommandModel::Exit => {
            lemma_tokens_exit_line();
            assert("exit"@.len() != "set"@.len() || "exit"@[0] != "set"@[0]);
        },
    }
}

} // verus!
