use repl_core::classify::{classify, TokenClass};

#[test]
fn whole_token_digits_then_letters_is_team() {
    assert_eq!(classify("1234A"), TokenClass::Team);
    assert_eq!(classify("1a"), TokenClass::Team);
    assert_eq!(classify("750B"), TokenClass::Team);
    assert_eq!(classify("56A"), TokenClass::Team);
}

#[test]
fn team_shape_is_case_insensitive() {
    assert_eq!(classify("1234a"), TokenClass::Team);
    assert_eq!(classify("12xYz"), TokenClass::Team);
}

#[test]
fn all_non_alphabetic_is_organization() {
    assert_eq!(classify("99"), TokenClass::Organization);
    assert_eq!(classify("750"), TokenClass::Organization);
    assert_eq!(classify("1-2-3"), TokenClass::Organization);
    assert_eq!(classify("!!"), TokenClass::Organization);
    // A non-ASCII, non-alphabetic character keeps a token an
    // organization code.
    assert_eq!(classify("1\u{b1}"), TokenClass::Organization);
}

#[test]
fn letters_without_a_digit_prefix_are_invalid() {
    assert_eq!(classify("abc"), TokenClass::Invalid);
    assert_eq!(classify("a"), TokenClass::Invalid);
    assert_eq!(classify("x-y"), TokenClass::Invalid);
}

#[test]
fn mixed_tokens_are_invalid() {
    assert_eq!(classify("A12"), TokenClass::Invalid);
    assert_eq!(classify("1a2"), TokenClass::Invalid);
    assert_eq!(classify("x1"), TokenClass::Invalid);
    assert_eq!(classify("12a3b"), TokenClass::Invalid);
}

#[test]
fn an_inner_digits_letters_run_does_not_make_a_team() {
    // The team shape covers the whole token, not a substring of it.
    assert_eq!(classify("A1B"), TokenClass::Invalid);
    assert_eq!(classify("1A-"), TokenClass::Invalid);
    assert_eq!(classify("-1A"), TokenClass::Invalid);
}

#[test]
fn non_ascii_letters_are_alphabetic_but_never_team() {
    // An accented letter is alphabetic, so the token is no organization
    // code; the team shape takes ASCII letters only.
    assert_eq!(classify("12\u{e9}"), TokenClass::Invalid);
    assert_eq!(classify("\u{4eac}"), TokenClass::Invalid);
}

#[test]
fn classification_depends_on_the_token_alone() {
    // The same token classifies the same way however often and in
    // whatever order the classifier runs.
    let first = classify("1234A");
    let _ = classify("99");
    let _ = classify("abc");
    let again = classify("1234A");
    assert_eq!(first, again);
}
