use yuiclaw::env::{dotenv_defaults, parse_dotenv, strip_quotes};

fn pairs(items: &[(&str, &str)]) -> Vec<(String, String)> {
    items.iter().map(|(k, v)| (k.to_string(), v.to_string())).collect()
}

fn names(keys: &[&str]) -> Vec<String> {
    keys.iter().map(|k| k.to_string()).collect()
}

#[test]
fn parses_simple_key_value_pairs() {
    let pairs = parse_dotenv("FOO=bar\nBAZ=qux\n");
    assert_eq!(
        pairs,
        vec![
            ("FOO".to_string(), "bar".to_string()),
            ("BAZ".to_string(), "qux".to_string()),
        ]
    );
}

#[test]
fn skips_comments_and_blank_lines() {
    let pairs = parse_dotenv("# comment\n\nKEY=value\n");
    assert_eq!(pairs, vec![("KEY".to_string(), "value".to_string())]);
}

#[test]
fn strips_double_quotes() {
    let pairs = parse_dotenv(r#"TOKEN="abc123""#);
    assert_eq!(pairs, vec![("TOKEN".to_string(), "abc123".to_string())]);
}

#[test]
fn strips_single_quotes() {
    let pairs = parse_dotenv("TOKEN='abc123'");
    assert_eq!(pairs, vec![("TOKEN".to_string(), "abc123".to_string())]);
}

#[test]
fn trims_whitespace_around_key_and_value() {
    let pairs = parse_dotenv("  KEY  =  value  ");
    assert_eq!(pairs, vec![("KEY".to_string(), "value".to_string())]);
}

#[test]
fn skips_lines_without_equals() {
    let pairs = parse_dotenv("NOEQUALS\nKEY=val\n");
    assert_eq!(pairs, vec![("KEY".to_string(), "val".to_string())]);
}

#[test]
fn strip_quotes_double() {
    assert_eq!(strip_quotes(r#""hello""#), "hello");
}

#[test]
fn strip_quotes_single() {
    assert_eq!(strip_quotes("'hello'"), "hello");
}

#[test]
fn strip_quotes_no_quotes() {
    assert_eq!(strip_quotes("hello"), "hello");
}

#[test]
fn strip_quotes_mismatched_not_stripped() {
    assert_eq!(strip_quotes(r#""hello'"#), r#""hello'"#);
}

#[test]
fn strip_quotes_leaves_a_lone_quote() {
    assert_eq!(strip_quotes("\""), "\"");
    assert_eq!(strip_quotes("''"), "");
}

#[test]
fn value_may_hold_equals_signs() {
    assert_eq!(parse_dotenv("URL=a=b=c"), pairs(&[("URL", "a=b=c")]));
}

#[test]
fn empty_key_is_skipped_and_empty_value_kept() {
    assert_eq!(parse_dotenv("=value\nKEY=\n"), pairs(&[("KEY", "")]));
}

#[test]
fn handles_crlf_and_indented_comments() {
    assert_eq!(parse_dotenv("A=1\r\n   # note\r\nB = \"two words\" \r\n"), pairs(&[("A", "1"), ("B", "two words")]));
}

#[test]
fn empty_file_gives_nothing() {
    assert_eq!(parse_dotenv(""), pairs(&[]));
}

#[test]
fn defaults_do_not_override_existing_variables() {
    let got = dotenv_defaults("HOME=/elsewhere\nNEW=1\n", &names(&["HOME"]));
    assert_eq!(got, pairs(&[("NEW", "1")]));
}

#[test]
fn defaults_keep_the_first_of_repeated_keys() {
    let got = dotenv_defaults("K=first\nK=second\nL=x\n", &names(&[]));
    assert_eq!(got, pairs(&[("K", "first"), ("L", "x")]));
}
