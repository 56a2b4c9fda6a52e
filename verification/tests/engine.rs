use rskvs::engine::{AppendOutcome, KvsEngine, KvsError};
use rskvs::log::Record;

fn lines(ls: &[&str]) -> Vec<String> {
    ls.iter().map(|l| l.to_string()).collect()
}

#[test]
fn fresh_engine_from_empty_log_is_empty() {
    let engine = KvsEngine::new(&Vec::new()).unwrap();
    assert!(engine.get("anything".to_string()).is_none());
}

#[test]
fn recovery_folds_operations_last_write_wins() {
    let engine = KvsEngine::new(&lines(&[
        "set a 1",
        "set b 2",
        "set a 3",
        "delete b",
        "set c 4",
    ]))
    .unwrap();
    assert_eq!(engine.get("a".to_string()), Some("3".to_string()));
    assert_eq!(engine.get("b".to_string()), None);
    assert_eq!(engine.get("c".to_string()), Some("4".to_string()));
}

#[test]
fn recovery_skips_blank_lines() {
    let engine = KvsEngine::new(&lines(&["", "set a 1", "   ", "\t", "delete a", ""])).unwrap();
    assert_eq!(engine.get("a".to_string()), None);
}

#[test]
fn recovery_fails_on_malformed_record() {
    let r = KvsEngine::new(&lines(&["set a 1", "bogus"]));
    assert!(matches!(r, Err(KvsError::ParseError)));
    let r = KvsEngine::new(&lines(&["set a 1", "set b"]));
    assert!(matches!(r, Err(KvsError::ParseError)));
    let r = KvsEngine::new(&lines(&["get a"]));
    assert!(matches!(r, Err(KvsError::ParseError)));
}

#[test]
fn set_then_get_returns_value() {
    let mut engine = KvsEngine::new(&Vec::new()).unwrap();
    engine
        .set("foo".to_string(), "bar".to_string(), AppendOutcome::Appended)
        .unwrap();
    assert_eq!(engine.get("foo".to_string()), Some("bar".to_string()));
    engine
        .set("foo".to_string(), "baz".to_string(), AppendOutcome::Appended)
        .unwrap();
    assert_eq!(engine.get("foo".to_string()), Some("baz".to_string()));
}

#[test]
fn failed_append_is_not_visible() {
    let mut engine = KvsEngine::new(&Vec::new()).unwrap();
    let r = engine.set(
        "foo".to_string(),
        "bar".to_string(),
        AppendOutcome::Failed("disk full".to_string()),
    );
    assert!(matches!(r, Err(KvsError::Io(m)) if m == "disk full"));
    assert_eq!(engine.get("foo".to_string()), None);
}

#[test]
fn failed_append_keeps_previous_value() {
    let mut engine = KvsEngine::new(&Vec::new()).unwrap();
    engine
        .set("foo".to_string(), "old".to_string(), AppendOutcome::Appended)
        .unwrap();
    let r = engine.set(
        "foo".to_string(),
        "new".to_string(),
        AppendOutcome::Failed("disk full".to_string()),
    );
    assert!(r.is_err());
    assert_eq!(engine.get("foo".to_string()), Some("old".to_string()));
    let r = engine.delete("foo".to_string(), AppendOutcome::Failed("disk full".to_string()));
    assert!(r.is_err());
    assert_eq!(engine.get("foo".to_string()), Some("old".to_string()));
}

#[test]
fn deleting_an_absent_key_twice_succeeds_both_times() {
    let mut engine = KvsEngine::new(&Vec::new()).unwrap();
    engine.delete("k".to_string(), AppendOutcome::Appended).unwrap();
    engine.delete("k".to_string(), AppendOutcome::Appended).unwrap();
    assert_eq!(engine.get("k".to_string()), None);
}

#[test]
fn set_round_trips_through_a_restart() {
    let mut log = lines(&["set a 1"]);
    let mut engine = KvsEngine::new(&log).unwrap();
    let record = Record::Put("k".to_string(), "v".to_string());
    log.push(record.to_line());
    engine
        .set("k".to_string(), "v".to_string(), AppendOutcome::Appended)
        .unwrap();
    assert_eq!(engine.get("k".to_string()), Some("v".to_string()));
    let restarted = KvsEngine::new(&log).unwrap();
    assert_eq!(restarted.get("k".to_string()), Some("v".to_string()));
    assert_eq!(restarted.get("a".to_string()), Some("1".to_string()));
}

#[test]
fn logged_deletes_round_trip_through_a_restart() {
    let mut log: Vec<String> = Vec::new();
    log.push(Record::Put("a".to_string(), "1".to_string()).to_line());
    log.push(Record::Delete("a".to_string()).to_line());
    log.push(Record::Delete("never-set".to_string()).to_line());
    let engine = KvsEngine::new(&log).unwrap();
    assert_eq!(engine.get("a".to_string()), None);
    assert_eq!(engine.get("never-set".to_string()), None);
}

#[test]
fn record_lines_end_with_newline() {
    let line = Record::Put("a".to_string(), "1".to_string()).to_line();
    assert!(line.ends_with('\n'));
    let line = Record::Delete("a".to_string()).to_line();
    assert!(line.ends_with('\n'));
}
