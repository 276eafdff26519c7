//! Splitting an input line into whitespace-separated tokens. A token is a
//! maximal run of characters that are not ASCII whitespace; leading and
//! trailing whitespace carries no empty tokens.

use crate::text::is_ascii_space;
use vstd::prelude::*;

verus! {

/// Length of the maximal prefix of `s` free of ASCII whitespace.
pub open spec fn token_len(s: Seq<char>) -> nat
    decreases s.len(),
{
    if s.len() == 0 || is_ascii_space(s[0]) {
        0
    } else {
        token_len(s.drop_first()) + 1
    }
}

pub proof fn lemma_token_len_bounds(s: Seq<char>)
    ensures
        token_len(s) <= s.len(),
        s.len() > 0 && !is_ascii_space(s[0]) ==> token_len(s) >= 1,
        forall|i: int| 0 <= i < token_len(s) ==> !is_ascii_space(s[i]),
        token_len(s) < s.len() ==> is_ascii_space(s[token_len(s) as int]),
    decreases s.len(),
{
    if s.len() > 0 && !is_ascii_space(s[0]) {
        lemma_token_len_bounds(s.drop_first());
        assert forall|i: int| 0 <= i < token_len(s) implies !is_ascii_space(s[i]) by {
            if i > 0 {
                assert(s.drop_first()[i - 1] == s[i]);
            }
        }
    }
}

/// The whitespace-separated tokens of `s`, outermost first.
pub open spec fn tokenize(s: Seq<char>) -> Seq<Seq<char>>
    decreases s.len(),
    via tokenize_decreases
{
    if s.len() == 0 {
        Seq::empty()
    } else if is_ascii_space(s[0]) {
        tokenize(s.drop_first())
    } else {
        seq![s.take(token_len(s) as int)] + tokenize(s.skip(token_len(s) as int))
    }
}

#[via_fn]
proof fn tokenize_decreases(s: Seq<char>) {
    if s.len() > 0 && !is_ascii_space(s[0]) {
        lemma_token_len_bounds(s);
    }
}

/// A run of non-whitespace characters, started at `from` and ended by
/// whitespace or the end of the string, is the token the tokenizer cuts
/// there.
proof fn lemma_token_len_of_run(s: Seq<char>, k: nat)
    requires
        k <= s.len(),
        forall|i: int| 0 <= i < k ==> !is_ascii_space(s[i]),
        k < s.len() ==> is_ascii_space(s[k as int]),
    ensures
        token_len(s) == k,
    decreases s.len(),
{
    if k == 0 {
    } else {
        lemma_token_len_of_run(s.drop_first(), (k - 1) as nat);
    }
}

/// Split a line into its whitespace-separated tokens.
pub fn split_tokens(s: &str) -> (r: Vec<String>)
    ensures
        r.deep_view() == tokenize(s@),
{
    let n = s.unicode_len();
    let mut out: Vec<String> = Vec::new();
    let mut i: usize = 0;
    proof {
        assert(s@.skip(0) =~= s@);
    }
    while i < n
        invariant
            i <= n,
            n == s@.len(),
            out.deep_view() + tokenize(s@.skip(i as int)) =~= tokenize(s@),
        decreases n - i,
    {
        let c = s.get_char(i);
        if char_is_space_exec(c) {
            proof {
                assert(s@.skip(i as int).drop_first() =~= s@.skip(i + 1));
            }
            i = i + 1;
        } else {
            let start = i;
            let mut tok = String::new();
            while i < n && !char_is_space_exec_at(s, i)
                invariant
                    start <= i <= n,
                    n == s@.len(),
                    tok@ =~= s@.subrange(start as int, i as int),
                    forall|j: int| start <= j < i ==> !is_ascii_space(s@[j]),
                    !is_ascii_space(s@[start as int]),
                decreases n - i,
            {
                tok.push(s.get_char(i));
                i = i + 1;
                assert(tok@ =~= s@.subrange(start as int, i as int));
            }
            proof {
                let rest = s@.skip(start as int);
                lemma_token_len_of_run(rest, (i - start) as nat);
                assert(rest.take((i - start) as int) =~= s@.subrange(start as int, i as int));
                assert(rest.skip((i - start) as int) =~= s@.skip(i as int));
            }
            let ghost prev = out.deep_view();
            out.push(tok);
            proof {
                assert(out.deep_view() =~= prev.push(tok@));
                assert(prev.push(tok@) + tokenize(s@.skip(i as int)) =~= prev + (seq![tok@]
                    + tokenize(s@.skip(i as int))));
            }
        }
    }
    proof {
        assert(s@.skip(n as int) =~= Seq::<char>::empty());
        assert(out.deep_view() + tokenize(s@.skip(n as int)) =~= out.deep_view());
    }
    out
}

fn char_is_space_exec(c: char) -> (r: bool)
    ensures
        r == is_ascii_space(c),
{
    crate::text::char_is_ascii_space(c)
}

fn char_is_space_exec_at(s: &str, i: usize) -> (r: bool)
    requires
        i < s@.len(),
    ensures
        r == is_ascii_space(s@[i as int]),
{
    crate::text::char_is_ascii_space(s.get_char(i))
}

} // verus!
