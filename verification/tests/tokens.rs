use repl_core::tokenize::split_tokens;

#[test]
fn splits_on_ascii_whitespace() {
    assert_eq!(split_tokens("comp 12345"), vec!["comp", "12345"]);
    assert_eq!(split_tokens("  global \t stats\n"), vec!["global", "stats"]);
    assert_eq!(split_tokens("a  b   c"), vec!["a", "b", "c"]);
}

#[test]
fn blank_input_has_no_tokens() {
    assert!(split_tokens("").is_empty());
    assert!(split_tokens(" \t \r\n ").is_empty());
}

#[test]
fn tokens_keep_their_case_and_punctuation() {
    assert_eq!(split_tokens("Team 56a!"), vec!["Team", "56a!"]);
}
