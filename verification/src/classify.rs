//! The identifier classifier: the single gate that tells a team identifier
//! from an organization code from an invalid token, in every context that
//! accepts a team-or-organization argument.
//!
//! A token is a team identifier when the whole token is one or more ASCII
//! digits followed by one or more ASCII letters, as in `1234A`. A token
//! with no alphabetic character anywhere is an organization code. Every
//! other shape is invalid — mixed tokens are never guessed at — and the
//! command that carried it is rejected. Accepted team identifiers are
//! canonicalized to upper case at this boundary.

use crate::text::{char_is_ascii_digit, char_is_ascii_letter, is_ascii_digit, is_ascii_letter};
use vstd::prelude::*;

verus! {

/// The three outcomes of classification.
#[derive(Clone, Copy, Debug, PartialEq, Eq, Structural)]
pub enum TokenClass {
    Team,
    Organization,
    Invalid,
}

/// What `char::is_alphabetic` decides beyond ASCII: whether a character
/// has the Unicode `Alphabetic` property, which takes the Unicode tables
/// to state.
pub uninterp spec fn unicode_alphabetic(c: char) -> bool;

/// A character is alphabetic as `char::is_alphabetic` counts it: every
/// ASCII letter is, and past ASCII the Unicode `Alphabetic` property
/// decides.
pub open spec fn char_alphabetic(c: char) -> bool {
    is_ascii_letter(c) || unicode_alphabetic(c)
}

/// Relies on `char::is_alphabetic`: true exactly on the characters with
/// the Unicode `Alphabetic` property, among them the ASCII letters; a
/// function of the character alone.
pub assume_specification[ char::is_alphabetic ](c: char) -> (r: bool)
    ensures
        r == (is_ascii_letter(c) || unicode_alphabetic(c)),
        r == char_alphabetic(c),
;

/// At position `k`, the token splits into a nonempty all-digit prefix and
/// a nonempty all-letter suffix.
pub open spec fn digits_then_letters_at(t: Seq<char>, k: int) -> bool {
    &&& 1 <= k < t.len()
    &&& forall|i: int| 0 <= i < k ==> is_ascii_digit(t[i])
    &&& forall|i: int| k <= i < t.len() ==> is_ascii_letter(t[i])
}

/// The team-identifier shape: the whole token is one or more digits
/// followed by one or more letters.
pub open spec fn is_team_token(t: Seq<char>) -> bool {
    exists|k: int| digits_then_letters_at(t, k)
}

/// The organization-code shape: no alphabetic character anywhere.
pub open spec fn is_organization_token(t: Seq<char>) -> bool {
    forall|i: int| 0 <= i < t.len() ==> !char_alphabetic(t[i])
}

/// What the classifier decides for a token. A function of the token alone.
pub open spec fn classify_spec(t: Seq<char>) -> TokenClass {
    if is_team_token(t) {
        TokenClass::Team
    } else if is_organization_token(t) {
        TokenClass::Organization
    } else {
        TokenClass::Invalid
    }
}

/// A token is classified `Team` exactly when it is digits-then-letters
/// whole, `Organization` exactly when it holds no alphabetic character,
/// and `Invalid` otherwise; the two accepted shapes exclude each other,
/// so no token is classified two ways.
pub proof fn lemma_classify_trichotomy(t: Seq<char>)
    ensures
        classify_spec(t) == TokenClass::Team <==> is_team_token(t),
        classify_spec(t) == TokenClass::Organization <==> is_organization_token(t),
        classify_spec(t) == TokenClass::Invalid <==> !is_team_token(t) && !is_organization_token(
            t,
        ),
        !(is_team_token(t) && is_organization_token(t)),
{
    if is_team_token(t) {
        let k = choose|k: int| digits_then_letters_at(t, k);
        assert(is_ascii_letter(t[t.len() - 1]));
        assert(char_alphabetic(t[t.len() - 1]));
    }
}

/// Length of the leading run of ASCII digits.
fn leading_digit_run(token: &str) -> (d: usize)
    ensures
        d <= token@.len(),
        forall|i: int| 0 <= i < d ==> is_ascii_digit(token@[i]),
        d < token@.len() ==> !is_ascii_digit(token@[d as int]),
{
    let n = token.unicode_len();
    let mut d: usize = 0;
    while d < n
        invariant
            d <= n,
            n == token@.len(),
            forall|i: int| 0 <= i < d ==> is_ascii_digit(token@[i]),
        decreases n - d,
    {
        if !char_is_ascii_digit(token.get_char(d)) {
            return d;
        }
        d = d + 1;
    }
    d
}

/// End of the run of ASCII letters that starts at `from`.
fn letter_run_end(token: &str, from: usize) -> (j: usize)
    requires
        from <= token@.len(),
    ensures
        from <= j <= token@.len(),
        forall|i: int| from <= i < j ==> is_ascii_letter(token@[i]),
        j < token@.len() ==> !is_ascii_letter(token@[j as int]),
{
    let n = token.unicode_len();
    let mut j: usize = from;
    while j < n
        invariant
            from <= j <= n,
            n == token@.len(),
            forall|i: int| from <= i < j ==> is_ascii_letter(token@[i]),
        decreases n - j,
    {
        if !char_is_ascii_letter(token.get_char(j)) {
            return j;
        }
        j = j + 1;
    }
    j
}

/// Whether the whole token is digits-then-letters.
fn team_shape(token: &str) -> (r: bool)
    ensures
        r == is_team_token(token@),
{
    let n = token.unicode_len();
    let d = leading_digit_run(token);
    if d == 0 || d == n {
        proof {
            if is_team_token(token@) {
                let k = choose|k: int| digits_then_letters_at(token@, k);
                if d == 0 {
                    assert(is_ascii_digit(token@[0]));
                } else {
                    assert(is_ascii_digit(token@[k]) && is_ascii_letter(token@[k]));
                }
            }
        }
        return false;
    }
    let j = letter_run_end(token, d);
    if j == n {
        proof {
            assert(digits_then_letters_at(token@, d as int));
        }
        true
    } else {
        proof {
            if is_team_token(token@) {
                let k = choose|k: int| digits_then_letters_at(token@, k);
                if k <= d {
                    assert(is_ascii_letter(token@[j as int]));
                } else {
                    assert(is_ascii_digit(token@[d as int]));
                }
            }
        }
        false
    }
}

/// Whether no character of the token is alphabetic.
fn all_non_alphabetic(token: &str) -> (r: bool)
    ensures
        r == is_organization_token(token@),
{
    let n = token.unicode_len();
    let mut i: usize = 0;
    while i < n
        invariant
            i <= n,
            n == token@.len(),
            forall|j: int| 0 <= j < i ==> !char_alphabetic(token@[j]),
        decreases n - i,
    {
        if token.get_char(i).is_alphabetic() {
            return false;
        }
        i = i + 1;
    }
    true
}

/// Classify a raw token as a team identifier, an organization code, or
/// invalid.
pub fn classify(token: &str) -> (r: TokenClass)
    ensures
        r == classify_spec(token@),
{
    if team_shape(token) {
        TokenClass::Team
    } else if all_non_alphabetic(token) {
        TokenClass::Organization
    } else {
        TokenClass::Invalid
    }
}

} // verus!
