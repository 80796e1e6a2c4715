use cmdline::Command;
use cmdline::ParseError;

fn args_of(cmd: &mut Command) -> Vec<String> {
    cmd.drain_arguments().into_iter().collect()
}

#[test]
fn plain_arguments() {
    let mut cmd = Command::parse("build target".to_string()).unwrap();
    assert_eq!(args_of(&mut cmd), vec!["build".to_string(), "target".to_string()]);
    assert!(!cmd.get_switch("build"));
    assert!(!cmd.get_switch("target"));
    assert!(cmd.get_next_flag("build").is_err());
    assert!(cmd.get_next_flag("target").is_err());
}

#[test]
fn long_flag_with_value() {
    let mut cmd = Command::parse("cmd --name value".to_string()).unwrap();
    assert_eq!(args_of(&mut cmd), vec!["cmd".to_string()]);
    assert_eq!(cmd.get_next_flag("name").unwrap(), "value".to_string());
    assert!(cmd.get_next_flag("name").is_err());
    assert!(!cmd.get_switch("name"));
}

#[test]
fn long_flag_at_end_is_switch() {
    let mut cmd = Command::parse("cmd --flag".to_string()).unwrap();
    assert_eq!(args_of(&mut cmd), vec!["cmd".to_string()]);
    assert!(cmd.check_switch("flag"));
    assert!(cmd.get_next_flag("flag").is_err());
}

#[test]
fn short_cluster_becomes_switches() {
    let mut cmd = Command::parse("cmd -abcd".to_string()).unwrap();
    assert!(cmd.get_switch("a"));
    assert!(cmd.get_switch("b"));
    assert!(cmd.get_switch("c"));
    assert!(cmd.get_switch("d"));
    assert!(!cmd.get_switch("abcd"));
}

#[test]
fn short_cluster_with_value_flags_last_letter() {
    let mut cmd = Command::parse("cmd -abcd 5".to_string()).unwrap();
    assert_eq!(cmd.get_next_flag("d").unwrap(), "5".to_string());
    assert!(cmd.get_next_flag("d").is_err());
    assert!(cmd.get_switch("a"));
    assert!(cmd.get_switch("b"));
    assert!(cmd.get_switch("c"));
    assert!(!cmd.get_switch("d"));
}

#[test]
fn quoted_arguments_and_values() {
    let mut cmd = Command::parse("cmd 'two words' --x \"a b\"".to_string()).unwrap();
    assert_eq!(args_of(&mut cmd), vec!["cmd".to_string(), "two words".to_string()]);
    assert_eq!(cmd.get_next_flag("x").unwrap(), "a b".to_string());
}

#[test]
fn double_dash_makes_rest_raw() {
    let mut cmd = Command::parse("cmd -- --literal -x".to_string()).unwrap();
    assert_eq!(
        args_of(&mut cmd),
        vec!["cmd".to_string(), "--literal".to_string(), "-x".to_string()]
    );
    assert!(!cmd.check_switch("literal"));
    assert!(!cmd.check_switch("x"));
    assert!(cmd.get_next_flag("literal").is_err());
}

#[test]
fn escaped_space_is_literal() {
    let mut cmd = Command::parse("cmd a\\ b".to_string()).unwrap();
    assert_eq!(args_of(&mut cmd), vec!["cmd".to_string(), "a b".to_string()]);
}

#[test]
fn lone_dash_at_end_fails() {
    let r = Command::parse("cmd -".to_string());
    assert_eq!(r.unwrap_err(), ParseError::EmptyName);
}

#[test]
fn trailing_escape_fails() {
    let r = Command::parse("cmd --x \\".to_string());
    assert_eq!(r.unwrap_err(), ParseError::EolAfterEscape);
}

#[test]
fn unterminated_quote_fails() {
    let r = Command::parse("cmd 'unterminated".to_string());
    assert_eq!(r.unwrap_err(), ParseError::UnclosedQuote);
}

#[test]
fn lone_double_dash_at_end_fails() {
    let r = Command::parse("cmd --".to_string());
    assert_eq!(r.unwrap_err(), ParseError::EmptyName);
}

#[test]
fn escape_in_name_fails() {
    let r = Command::parse("cmd --a\\b".to_string());
    assert_eq!(r.unwrap_err(), ParseError::EscapeInName);
    let r2 = Command::parse("cmd -\\".to_string());
    assert_eq!(r2.unwrap_err(), ParseError::EscapeInName);
}

#[test]
fn quote_in_name_fails() {
    let r = Command::parse("cmd --a'b".to_string());
    assert_eq!(r.unwrap_err(), ParseError::QuoteInName);
    let r2 = Command::parse("cmd -\"x".to_string());
    assert_eq!(r2.unwrap_err(), ParseError::QuoteInName);
}

#[test]
fn hyphen_in_short_cluster_fails() {
    let r = Command::parse("cmd -a-b".to_string());
    assert_eq!(r.unwrap_err(), ParseError::HyphenInShortName);
}

#[test]
fn triple_hyphen_fails() {
    let r = Command::parse("cmd ---x".to_string());
    assert_eq!(r.unwrap_err(), ParseError::HyphenAtNameStart);
}

#[test]
fn lone_dash_before_value_fails() {
    let r = Command::parse("cmd - x".to_string());
    assert_eq!(r.unwrap_err(), ParseError::EmptyName);
}

#[test]
fn empty_input_parses_to_nothing() {
    let mut cmd = Command::parse("".to_string()).unwrap();
    assert!(args_of(&mut cmd).is_empty());
    let mut blank = Command::parse("   \t  ".to_string()).unwrap();
    assert!(args_of(&mut blank).is_empty());
}

#[test]
fn empty_quotes_make_empty_argument() {
    let mut cmd = Command::parse("cmd \"\"".to_string()).unwrap();
    assert_eq!(args_of(&mut cmd), vec!["cmd".to_string(), "".to_string()]);
}

#[test]
fn other_quote_is_literal_inside_quotes() {
    let mut cmd = Command::parse("say \"it's\"".to_string()).unwrap();
    assert_eq!(args_of(&mut cmd), vec!["say".to_string(), "it's".to_string()]);
}

#[test]
fn long_name_may_contain_hyphen() {
    let mut cmd = Command::parse("cmd --dry-run".to_string()).unwrap();
    assert!(cmd.get_switch("dry-run"));
}

#[test]
fn adjacent_quoted_tokens_split() {
    let mut cmd = Command::parse("\"a\"b".to_string()).unwrap();
    assert_eq!(args_of(&mut cmd), vec!["a".to_string(), "b".to_string()]);
}

#[test]
fn repeated_flag_queues_values_in_order() {
    let mut cmd = Command::parse("cmd --x 1 --x 2 --x 3".to_string()).unwrap();
    assert_eq!(cmd.get_next_flag("x").unwrap(), "1".to_string());
    assert_eq!(cmd.get_next_flag("x").unwrap(), "2".to_string());
    assert_eq!(cmd.get_next_flag("x").unwrap(), "3".to_string());
    assert!(cmd.get_next_flag("x").is_err());
}

#[test]
fn switch_before_next_flag_token() {
    let mut cmd = Command::parse("cmd --a --b v".to_string()).unwrap();
    assert!(cmd.get_switch("a"));
    assert_eq!(cmd.get_next_flag("b").unwrap(), "v".to_string());
}

#[test]
fn raw_mode_keeps_quoting_rules() {
    let mut cmd = Command::parse("cmd -- 'two words'".to_string()).unwrap();
    assert_eq!(args_of(&mut cmd), vec!["cmd".to_string(), "two words".to_string()]);
}
