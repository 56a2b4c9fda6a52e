use rskvs::command::Command;
use rskvs::engine::{AppendOutcome, KvsEngine};
use rskvs::handler;
use rskvs::handler::dispatch;
use rskvs::handler::error::ServerError;

fn fresh() -> KvsEngine {
    KvsEngine::new(&Vec::new()).unwrap()
}

/// Parses `line`, appends nothing (none of these scenarios fail the log),
/// and returns the response the server would write back.
fn serve(db: &mut KvsEngine, line: &str) -> Option<String> {
    dispatch(db, Command::from_str(line), AppendOutcome::Appended)
}

#[test]
fn set_then_get_over_the_wire() {
    let mut db = fresh();
    assert_eq!(serve(&mut db, "set foo bar\n"), Some("OK\n".to_string()));
    assert_eq!(serve(&mut db, "get foo\n"), Some("bar\n".to_string()));
}

#[test]
fn get_of_missing_key_over_the_wire() {
    let mut db = fresh();
    assert_eq!(serve(&mut db, "get missing\n"), Some("Key not found\n".to_string()));
}

#[test]
fn delete_then_get_over_the_wire() {
    let mut db = fresh();
    assert_eq!(serve(&mut db, "set foo bar\n"), Some("OK\n".to_string()));
    assert_eq!(serve(&mut db, "delete foo\n"), Some("OK\n".to_string()));
    assert_eq!(serve(&mut db, "get foo\n"), Some("Key not found\n".to_string()));
}

#[test]
fn bogus_command_reports_error_and_connection_serves_on() {
    let mut db = fresh();
    assert_eq!(serve(&mut db, "bogus\n"), Some("Error: Invalid command\n".to_string()));
    assert_eq!(serve(&mut db, "set foo bar\n"), Some("OK\n".to_string()));
    assert_eq!(serve(&mut db, "get foo\n"), Some("bar\n".to_string()));
}

#[test]
fn empty_line_is_an_invalid_command() {
    let mut db = fresh();
    assert_eq!(serve(&mut db, "\n"), Some("Error: Invalid command\n".to_string()));
}

#[test]
fn exit_closes_without_a_response() {
    let mut db = fresh();
    assert_eq!(serve(&mut db, "exit\n"), None);
}

#[test]
fn restart_serves_the_last_logged_write() {
    let log: Vec<String> = "set a 1\nset a 2\ndelete a\nset a 3\n"
        .lines()
        .map(|l| l.to_string())
        .collect();
    let mut db = KvsEngine::new(&log).unwrap();
    assert_eq!(serve(&mut db, "get a\n"), Some("3\n".to_string()));
}

#[test]
fn failed_append_reports_io_error_and_hides_the_write() {
    let mut db = fresh();
    let r = dispatch(
        &mut db,
        Command::from_str("set foo bar\n"),
        AppendOutcome::Failed("disk full".to_string()),
    );
    assert_eq!(r, Some("Error: I/O error: disk full\n".to_string()));
    assert_eq!(serve(&mut db, "get foo\n"), Some("Key not found\n".to_string()));
}

#[test]
fn failed_delete_reports_io_error_and_keeps_the_value() {
    let mut db = fresh();
    assert_eq!(serve(&mut db, "set foo bar\n"), Some("OK\n".to_string()));
    let r = dispatch(
        &mut db,
        Command::from_str("delete foo\n"),
        AppendOutcome::Failed("disk full".to_string()),
    );
    assert_eq!(r, Some("Error: I/O error: disk full\n".to_string()));
    assert_eq!(serve(&mut db, "get foo\n"), Some("bar\n".to_string()));
}

#[test]
fn lock_failure_line_matches_the_protocol() {
    assert_eq!(
        handler::error_line(&ServerError::LockError),
        "Error: Internal server error\n".to_string()
    );
    assert_eq!(
        handler::error_line(&ServerError::InvalidCommand),
        "Error: Invalid command\n".to_string()
    );
}

#[test]
fn interleaved_connections_agree_with_their_total_order() {
    // Two clients race on one key; every interleaving the lock can produce
    // is some total order of the four operations, and the store's answer is
    // the last write of that order.
    let a1 = "set k 1\n";
    let b1 = "set k 2\n";
    let a2 = "delete k\n";
    let b2 = "set k 3\n";

    let mut db = fresh();
    for line in [a1, b1, a2, b2] {
        assert_eq!(serve(&mut db, line), Some("OK\n".to_string()));
    }
    assert_eq!(serve(&mut db, "get k\n"), Some("3\n".to_string()));

    let mut db = fresh();
    for line in [b1, b2, a1, a2] {
        assert_eq!(serve(&mut db, line), Some("OK\n".to_string()));
    }
    assert_eq!(serve(&mut db, "get k\n"), Some("Key not found\n".to_string()));

    let mut db = fresh();
    for line in [a1, b1, b2, a2] {
        assert_eq!(serve(&mut db, line), Some("OK\n".to_string()));
    }
    assert_eq!(serve(&mut db, "get k\n"), Some("Key not found\n".to_string()));
}
