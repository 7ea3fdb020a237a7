//! Facts about runs of one class of character at the head of a text.

use vstd::prelude::*;
use crate::grammar::{run_len, CharClass};

verus! {

/// A run lies within the text, holds only characters of its class, and ends
/// at the end of the text or before a character of another class.
pub proof fn lemma_run_len_is_maximal(s: Seq<char>, class: CharClass)
    ensures
        run_len(s, class) <= s.len(),
        forall|i: int| 0 <= i < run_len(s, class) ==> class.has(#[trigger] s[i]),
        run_len(s, class) < s.len() ==> !class.has(s[run_len(s, class) as int]),
    decreases s.len(),
{
    if s.len() > 0 && class.has(s[0]) {
        let tail = s.drop_first();
        lemma_run_len_is_maximal(tail, class);
        assert forall|i: int| 0 <= i < run_len(s, class) implies class.has(#[trigger] s[i]) by {
            if i > 0 {
                assert(s[i] == tail[i - 1]);
            }
        }
        if run_len(s, class) < s.len() {
            assert(s[run_len(s, class) as int] == tail[run_len(tail, class) as int]);
        }
    }
}

/// Only one length is that of a run: where `n` characters of the class
/// stand at the head of `s` and the next one, if any, is of another class,
/// `n` is the length of the run.
pub proof fn lemma_run_len_is_unique(s: Seq<char>, class: CharClass, n: int)
    requires
        0 <= n <= s.len(),
        forall|i: int| 0 <= i < n ==> class.has(#[trigger] s[i]),
        n < s.len() ==> !class.has(s[n]),
    ensures
        run_len(s, class) == n,
    decreases n,
{
    if n > 0 {
        let tail = s.drop_first();
        assert(class.has(s[0]));
        assert forall|i: int| 0 <= i < n - 1 implies class.has(#[trigger] tail[i]) by {
            assert(tail[i] == s[i + 1]);
        }
        lemma_run_len_is_unique(tail, class, n - 1);
    }
}

/// Where `token` holds only characters of the class and `rest` does not
/// begin with one, the run at the head of `token + rest` is `token`.
pub proof fn lemma_run_of_split(token: Seq<char>, rest: Seq<char>, class: CharClass)
    requires
        forall|i: int| 0 <= i < token.len() ==> class.has(#[trigger] token[i]),
        rest.len() > 0 ==> !class.has(rest[0]),
    ensures
        run_len(token + rest, class) == token.len(),
        (token + rest).take(token.len() as int) == token,
        (token + rest).skip(token.len() as int) == rest,
{
    let s = token + rest;
    let n = token.len() as int;
    assert forall|i: int| 0 <= i < n implies class.has(#[trigger] s[i]) by {
        assert(s[i] == token[i]);
    }
    if n < s.len() {
        assert(s[n] == rest[0]);
    }
    lemma_run_len_is_unique(s, class, n);
    assert(s.take(n) =~= token);
    assert(s.skip(n) =~= rest);
}

} // verus!
