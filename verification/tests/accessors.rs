use cmdline::AccessError;
use cmdline::Command;

#[test]
fn drain_arguments_twice_returns_nothing() {
    let mut cmd = Command::parse("one two three".to_string()).unwrap();
    let first: Vec<String> = cmd.drain_arguments().into_iter().collect();
    assert_eq!(first, vec!["one".to_string(), "two".to_string(), "three".to_string()]);
    let second = cmd.drain_arguments();
    assert!(second.is_empty());
}

#[test]
fn get_next_argument_pops_in_order() {
    let mut cmd = Command::parse("a b".to_string()).unwrap();
    assert_eq!(cmd.get_next_argument().unwrap(), "a".to_string());
    assert_eq!(cmd.get_next_argument().unwrap(), "b".to_string());
    assert_eq!(cmd.get_next_argument().unwrap_err(), AccessError::MissingArgument);
}

#[test]
fn parse_next_argument_typed() {
    let mut cmd = Command::parse("42 oops".to_string()).unwrap();
    let n: u64 = cmd.parse_next_argument().unwrap();
    assert_eq!(n, 42);
    let bad: Result<u64, AccessError> = cmd.parse_next_argument();
    assert_eq!(bad.unwrap_err(), AccessError::ArgumentNotParsable);
    // the unparsable argument was still consumed
    assert_eq!(cmd.get_next_argument().unwrap_err(), AccessError::MissingArgument);
}

#[test]
fn next_argument_typed() {
    let mut cmd = Command::parse("7 word".to_string()).unwrap();
    let n: u64 = cmd.next_argument().unwrap();
    assert_eq!(n, 7);
    let s: String = cmd.next_argument().unwrap();
    assert_eq!(s, "word".to_string());
}

#[test]
fn u64_bounds_and_shapes() {
    let mut cmd = Command::parse("18446744073709551615 18446744073709551616 1x -- -3".to_string())
        .unwrap();
    let max: u64 = cmd.parse_next_argument().unwrap();
    assert_eq!(max, u64::MAX);
    let over: Result<u64, AccessError> = cmd.parse_next_argument();
    assert!(over.is_err());
    let mixed: Result<u64, AccessError> = cmd.parse_next_argument();
    assert!(mixed.is_err());
    let negative: Result<u64, AccessError> = cmd.parse_next_argument();
    assert!(negative.is_err());
}

#[test]
fn drain_flag_takes_whole_queue() {
    let mut cmd = Command::parse("cmd --x 1 --x 2".to_string()).unwrap();
    let vals: Vec<String> = cmd.drain_flag("x").unwrap().into_iter().collect();
    assert_eq!(vals, vec!["1".to_string(), "2".to_string()]);
    assert!(cmd.drain_flag("x").is_none());
    assert!(cmd.drain_flag("y").is_none());
}

#[test]
fn get_flag_matches_drain_flag() {
    let mut cmd = Command::parse("cmd --x 1".to_string()).unwrap();
    let vals: Vec<String> = cmd.get_flag("x").unwrap().into_iter().collect();
    assert_eq!(vals, vec!["1".to_string()]);
    assert!(cmd.get_flag("x").is_none());
}

#[test]
fn get_next_flag_reports_missing_name() {
    let mut cmd = Command::parse("cmd".to_string()).unwrap();
    match cmd.get_next_flag("verbose").unwrap_err() {
        AccessError::MissingFlag { name } => assert_eq!(name, "verbose".to_string()),
        other => panic!("unexpected error: {:?}", other),
    }
}

#[test]
fn parse_next_flag_typed() {
    let mut cmd = Command::parse("cmd --n 12 --n oops".to_string()).unwrap();
    let n: u64 = cmd.parse_next_flag("n").unwrap();
    assert_eq!(n, 12);
    let bad: Result<u64, AccessError> = cmd.parse_next_flag("n");
    match bad.unwrap_err() {
        AccessError::FlagNotParsable { name } => assert_eq!(name, "n".to_string()),
        other => panic!("unexpected error: {:?}", other),
    }
    // the unparsable value was still consumed
    assert!(cmd.get_next_flag("n").is_err());
}

#[test]
fn next_flag_typed() {
    let mut cmd = Command::parse("cmd --k 9".to_string()).unwrap();
    let k: u64 = cmd.next_flag("k").unwrap();
    assert_eq!(k, 9);
}

#[test]
fn get_switch_consumes() {
    let mut cmd = Command::parse("cmd -v".to_string()).unwrap();
    assert!(cmd.get_switch("v"));
    assert!(!cmd.get_switch("v"));
}

#[test]
fn check_switch_does_not_consume() {
    let mut cmd = Command::parse("cmd -v".to_string()).unwrap();
    assert!(cmd.check_switch("v"));
    assert!(cmd.check_switch("v"));
    assert!(!cmd.check_switch("w"));
}

#[test]
fn get_arguments_matches_drain_arguments() {
    let mut cmd = Command::parse("x y".to_string()).unwrap();
    let all: Vec<String> = cmd.get_arguments().into_iter().collect();
    assert_eq!(all, vec!["x".to_string(), "y".to_string()]);
    assert!(cmd.get_arguments().is_empty());
}
