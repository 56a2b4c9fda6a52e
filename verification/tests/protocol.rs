use rskvs::client::{parse_response, ClientError};
use rskvs::command::Command;
use rskvs::log::{Record, ParsedLine};
use rskvs::log::parse_record_line;
use rskvs::text::{tokenize, trim};

#[test]
fn tokenize_splits_on_whitespace() {
    assert_eq!(tokenize("set foo bar"), vec!["set".to_string(), "foo".to_string(), "bar".to_string()]);
    assert_eq!(tokenize("  get\t key \n"), vec!["get".to_string(), "key".to_string()]);
    assert_eq!(tokenize(""), Vec::<String>::new());
    assert_eq!(tokenize("   \t \n"), Vec::<String>::new());
    assert_eq!(tokenize("one"), vec!["one".to_string()]);
}

#[test]
fn trim_strips_surrounding_whitespace() {
    assert_eq!(trim("  hello \n"), "hello".to_string());
    assert_eq!(trim("hello"), "hello".to_string());
    assert_eq!(trim(" \t\n"), String::new());
    assert_eq!(trim(""), String::new());
    assert_eq!(trim("a b\n"), "a b".to_string());
}

#[test]
fn parse_set_command() {
    let c = Command::from_str("set foo bar\n").unwrap();
    assert!(matches!(c, Command::Put(k, v) if k == "foo" && v == "bar"));
}

#[test]
fn parse_get_command() {
    let c = Command::from_str("get foo\n").unwrap();
    assert!(matches!(c, Command::Get(k) if k == "foo"));
}

#[test]
fn parse_delete_command() {
    let c = Command::from_str("delete foo\n").unwrap();
    assert!(matches!(c, Command::Delete(k) if k == "foo"));
}

#[test]
fn parse_exit_command() {
    let c = Command::from_str("exit\n").unwrap();
    assert!(matches!(c, Command::Exit));
    let c = Command::from_str("  exit  ").unwrap();
    assert!(matches!(c, Command::Exit));
}

#[test]
fn parse_rejects_malformed_commands() {
    assert!(Command::from_str("bogus\n").is_err());
    assert!(Command::from_str("").is_err());
    assert!(Command::from_str("\n").is_err());
    assert!(Command::from_str("set foo\n").is_err());
    assert!(Command::from_str("set foo bar baz\n").is_err());
    assert!(Command::from_str("get\n").is_err());
    assert!(Command::from_str("get a b\n").is_err());
    assert!(Command::from_str("delete\n").is_err());
    assert!(Command::from_str("exit now\n").is_err());
    assert!(Command::from_str("SET foo bar\n").is_err());
}

#[test]
fn parse_tolerates_extra_whitespace() {
    let c = Command::from_str("  set   foo\t bar \n").unwrap();
    assert!(matches!(c, Command::Put(k, v) if k == "foo" && v == "bar"));
}

#[test]
fn wire_lines_render_commands() {
    assert_eq!(Command::Put("foo".to_string(), "bar".to_string()).wire_line(), "set foo bar\n");
    assert_eq!(Command::Get("foo".to_string()).wire_line(), "get foo\n");
    assert_eq!(Command::Delete("foo".to_string()).wire_line(), "delete foo\n");
    assert_eq!(Command::Exit.wire_line(), "exit\n");
}

#[test]
fn wire_line_round_trips_through_parse() {
    let line = Command::Put("k1".to_string(), "v1".to_string()).wire_line();
    let c = Command::from_str(&line).unwrap();
    assert!(matches!(c, Command::Put(k, v) if k == "k1" && v == "v1"));
}

#[test]
fn commands_yield_their_records() {
    let r = Command::Put("a".to_string(), "b".to_string()).to_record().unwrap();
    assert!(matches!(r, Record::Put(k, v) if k == "a" && v == "b"));
    let r = Command::Delete("a".to_string()).to_record().unwrap();
    assert!(matches!(r, Record::Delete(k) if k == "a"));
    assert!(Command::Get("a".to_string()).to_record().is_none());
    assert!(Command::Exit.to_record().is_none());
}

#[test]
fn records_render_log_lines() {
    assert_eq!(Record::Put("a".to_string(), "1".to_string()).to_line(), "set a 1\n");
    assert_eq!(Record::Delete("a".to_string()).to_line(), "delete a\n");
}

#[test]
fn record_lines_classify_back() {
    let p = parse_record_line("set a 1\n");
    assert!(matches!(p, ParsedLine::Rec(Record::Put(k, v)) if k == "a" && v == "1"));
    let p = parse_record_line("delete a\n");
    assert!(matches!(p, ParsedLine::Rec(Record::Delete(k)) if k == "a"));
    assert!(matches!(parse_record_line("   \n"), ParsedLine::Blank));
    assert!(matches!(parse_record_line(""), ParsedLine::Blank));
    assert!(matches!(parse_record_line("get a\n"), ParsedLine::Malformed));
    assert!(matches!(parse_record_line("set a\n"), ParsedLine::Malformed));
    assert!(matches!(parse_record_line("set a 1 2\n"), ParsedLine::Malformed));
}

#[test]
fn response_data_is_trimmed() {
    let r = parse_response("bar\n").unwrap();
    assert_eq!(r, "bar");
    let r = parse_response("OK\n").unwrap();
    assert_eq!(r, "OK");
    let r = parse_response("Key not found\n").unwrap();
    assert_eq!(r, "Key not found");
}

#[test]
fn response_error_prefix_is_the_failure_signal() {
    let r = parse_response("Error: Invalid command\n");
    assert!(matches!(r, Err(ClientError::Server(m)) if m == "Error: Invalid command"));
    let r = parse_response("Error:\n");
    assert!(matches!(r, Err(ClientError::Server(m)) if m == "Error:"));
    let r = parse_response("Erro\n").unwrap();
    assert_eq!(r, "Erro");
    let r = parse_response("error: lower case is data\n").unwrap();
    assert_eq!(r, "error: lower case is data");
}
