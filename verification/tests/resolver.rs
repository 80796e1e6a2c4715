use cmdline::AccessError;
use cmdline::Command;
use cmdline::Flag;

#[test]
fn primary_name_wins() {
    let mut cmd = Command::parse("cmd --count 3 --c 4".to_string()).unwrap();
    let n: u64 = Flag::new("count").alias("c").default(9).parse(&mut cmd).unwrap();
    assert_eq!(n, 3);
    // the alias value is still queued
    assert_eq!(cmd.get_next_flag("c").unwrap(), "4".to_string());
}

#[test]
fn alias_supplies_the_value() {
    let mut cmd = Command::parse("cmd --c 4".to_string()).unwrap();
    let n: u64 = Flag::new("count").alias("c").parse(&mut cmd).unwrap();
    assert_eq!(n, 4);
}

#[test]
fn default_applies_when_both_names_absent() {
    let mut cmd = Command::parse("cmd".to_string()).unwrap();
    let n: u64 = Flag::new("count").alias("c").default(9).parse(&mut cmd).unwrap();
    assert_eq!(n, 9);
}

#[test]
fn malformed_value_never_falls_back_to_default() {
    let mut cmd = Command::parse("cmd --count oops".to_string()).unwrap();
    let r: Result<u64, AccessError> = Flag::new("count").alias("c").default(9).parse(&mut cmd);
    match r.unwrap_err() {
        AccessError::FlagNotParsable { name } => assert_eq!(name, "count".to_string()),
        other => panic!("unexpected error: {:?}", other),
    }
}

#[test]
fn malformed_alias_value_never_falls_back_to_default() {
    let mut cmd = Command::parse("cmd --c oops".to_string()).unwrap();
    let r: Result<u64, AccessError> = Flag::new("count").alias("c").default(9).parse(&mut cmd);
    match r.unwrap_err() {
        AccessError::FlagNotParsable { name } => assert_eq!(name, "c".to_string()),
        other => panic!("unexpected error: {:?}", other),
    }
}

#[test]
fn missing_without_alias_fails_even_with_default() {
    let mut cmd = Command::parse("cmd".to_string()).unwrap();
    let r: Result<u64, AccessError> = Flag::new("count").default(9).parse(&mut cmd);
    match r.unwrap_err() {
        AccessError::MissingFlag { name } => assert_eq!(name, "count".to_string()),
        other => panic!("unexpected error: {:?}", other),
    }
}

#[test]
fn missing_under_both_names_without_default() {
    let mut cmd = Command::parse("cmd".to_string()).unwrap();
    let r: Result<u64, AccessError> = Flag::new("count").alias("c").parse(&mut cmd);
    match r.unwrap_err() {
        AccessError::MissingFlagOrAlias { name, alias } => {
            assert_eq!(name, "count".to_string());
            assert_eq!(alias, "c".to_string());
        }
        other => panic!("unexpected error: {:?}", other),
    }
}

#[test]
fn resolver_works_with_strings() {
    let mut cmd = Command::parse("cmd --who 'a b'".to_string()).unwrap();
    let s: String = Flag::new("who").parse(&mut cmd).unwrap();
    assert_eq!(s, "a b".to_string());
}

#[test]
fn resolver_works_with_booleans() {
    let mut cmd = Command::parse("cmd --on true --off false --bad yes".to_string()).unwrap();
    let on: bool = Flag::new("on").parse(&mut cmd).unwrap();
    let off: bool = Flag::new("off").parse(&mut cmd).unwrap();
    assert!(on);
    assert!(!off);
    let bad: Result<bool, AccessError> = Flag::new("bad").parse(&mut cmd);
    assert!(bad.is_err());
}

#[test]
fn resolution_consumes_one_value_per_call() {
    let mut cmd = Command::parse("cmd --n 1 --n 2".to_string()).unwrap();
    let a: u64 = Flag::new("n").parse(&mut cmd).unwrap();
    let b: u64 = Flag::new("n").parse(&mut cmd).unwrap();
    assert_eq!((a, b), (1, 2));
    let r: Result<u64, AccessError> = Flag::new("n").parse(&mut cmd);
    assert!(r.is_err());
}
