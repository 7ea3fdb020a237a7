//! The grammar of a call, stated over sequences of characters.
//!
//! Every matcher is a function from the text at the current position to
//! the text that is left and what was recognised. A matcher that can fail
//! yields an `Option`; one that cannot yields the pair itself.

use vstd::prelude::*;
use crate::laws::lemma_sep_argument_takes_one_separator;

verus! {

/// The characters that mark the boundary between two arguments.
pub open spec fn is_separator(c: char) -> bool {
    c == ',' || c == '(' || c == ')'
}

/// Space and tab: the blanks that may surround a separator.
pub open spec fn is_blank(c: char) -> bool {
    c == ' ' || c == '\t'
}

/// The ASCII letters and digits, of which a call's name is made.
pub open spec fn is_alphanumeric(c: char) -> bool {
    ('0' <= c && c <= '9') || ('a' <= c && c <= 'z') || ('A' <= c && c <= 'Z')
}

/// The characters with the Unicode property `White_Space`, which are
/// stripped from both ends of an argument.
pub open spec fn is_whitespace(c: char) -> bool {
    ||| ('\u{9}' <= c && c <= '\u{D}')
    ||| c == ' '
    ||| c == '\u{85}'
    ||| c == '\u{A0}'
    ||| c == '\u{1680}'
    ||| ('\u{2000}' <= c && c <= '\u{200A}')
    ||| c == '\u{2028}'
    ||| c == '\u{2029}'
    ||| c == '\u{202F}'
    ||| c == '\u{205F}'
    ||| c == '\u{3000}'
}

/// The kinds of character of which the grammar takes whole runs.
pub enum CharClass {
    /// Space or tab.
    Blank,
    /// Anything but a separator: the text of an argument.
    Text,
    /// An ASCII letter or digit.
    Alphanumeric,
}

impl CharClass {
    /// Whether `c` belongs to the class.
    pub open spec fn has(self, c: char) -> bool {
        match self {
            CharClass::Blank => is_blank(c),
            CharClass::Text => !is_separator(c),
            CharClass::Alphanumeric => is_alphanumeric(c),
        }
    }
}

/// How many characters at the head of `s` belong to `class` without a break.
pub open spec fn run_len(s: Seq<char>, class: CharClass) -> nat
    decreases s.len(),
{
    if s.len() > 0 && class.has(s[0]) {
        1 + run_len(s.drop_first(), class)
    } else {
        0
    }
}

/// `s` without the whitespace at its head.
pub open spec fn trim_start(s: Seq<char>) -> Seq<char>
    decreases s.len(),
{
    if s.len() > 0 && is_whitespace(s.first()) {
        trim_start(s.drop_first())
    } else {
        s
    }
}

/// `s` without the whitespace at its tail.
pub open spec fn trim_end(s: Seq<char>) -> Seq<char>
    decreases s.len(),
{
    if s.len() > 0 && is_whitespace(s.last()) {
        trim_end(s.drop_last())
    } else {
        s
    }
}

/// `s` without the whitespace at either end.
pub open spec fn trimmed(s: Seq<char>) -> Seq<char> {
    trim_end(trim_start(s))
}

/// What a matcher that may fail yields: the text left over, then the token.
pub type Match = Option<(Seq<char>, Seq<char>)>;

/// The longest run of `class` at the head of `s`, which must not be empty.
pub open spec fn run_match(s: Seq<char>, class: CharClass) -> Match {
    let n = run_len(s, class) as int;
    if n > 0 {
        Some((s.skip(n), s.take(n)))
    } else {
        None
    }
}

/// `s` without the blanks at its head.
pub open spec fn skip_blanks(s: Seq<char>) -> Seq<char> {
    s.skip(run_len(s, CharClass::Blank) as int)
}

/// A single separator character at the head of `s`.
pub open spec fn sep_match(s: Seq<char>) -> Match {
    if s.len() > 0 && is_separator(s[0]) {
        Some((s.skip(1), s.take(1)))
    } else {
        None
    }
}

/// A separator with any number of blanks before and after it. The blanks
/// are consumed; the token is the separator alone.
pub open spec fn sep_spaced_match(s: Seq<char>) -> Match {
    match sep_match(skip_blanks(s)) {
        Some((rest, token)) => Some((skip_blanks(rest), token)),
        None => None,
    }
}

/// The text up to the next separator or the end, which must not be empty.
pub open spec fn argument_match(s: Seq<char>) -> Match {
    run_match(s, CharClass::Text)
}

/// An argument, with the whitespace at both of its ends removed.
pub open spec fn argument_spaced_match(s: Seq<char>) -> Match {
    match argument_match(s) {
        Some((rest, token)) => Some((rest, trimmed(token))),
        None => None,
    }
}

/// A trimmed argument where there is one; otherwise the empty argument,
/// with nothing consumed.
pub open spec fn argument_maybe_match(s: Seq<char>) -> (Seq<char>, Seq<char>) {
    match argument_spaced_match(s) {
        Some(found) => found,
        None => (s, Seq::empty()),
    }
}

/// A separator and the argument behind it, which may be empty. Only the
/// argument is kept.
pub open spec fn sep_argument_match(s: Seq<char>) -> Match {
    match sep_spaced_match(s) {
        Some((rest, _)) => Some(argument_maybe_match(rest)),
        None => None,
    }
}

/// The arguments of every separator from the head of `s` on, in order, and
/// the text at which no further separator stands.
pub open spec fn arguments_match(s: Seq<char>) -> (Seq<char>, Seq<Seq<char>>)
    decreases s.len(),
{
    match sep_argument_match(s) {
        Some((rest, argument)) => {
            proof {
                lemma_sep_argument_takes_one_separator(s);
            }
            let (end, more) = arguments_match(rest);
            (end, seq![argument] + more)
        },
        None => (s, Seq::empty()),
    }
}

/// How many separator characters `s` holds.
pub open spec fn separator_count(s: Seq<char>) -> nat
    decreases s.len(),
{
    if s.len() == 0 {
        0
    } else if is_separator(s.last()) {
        separator_count(s.drop_last()) + 1
    } else {
        separator_count(s.drop_last())
    }
}

/// No character of `s` is a separator.
pub open spec fn is_plain(s: Seq<char>) -> bool {
    forall|i: int| 0 <= i < s.len() ==> !is_separator(#[trigger] s[i])
}

/// `s` neither begins nor ends with whitespace.
pub open spec fn is_tight(s: Seq<char>) -> bool {
    s.len() > 0 ==> !is_whitespace(s.first()) && !is_whitespace(s.last())
}

/// The part of `s` that a matcher took, given what it left over.
pub open spec fn consumed(s: Seq<char>, rest: Seq<char>) -> Seq<char> {
    s.take(s.len() - rest.len())
}

/// `rest` is what remains of `s` when some characters are taken from its
/// head.
pub open spec fn is_rest_of(rest: Seq<char>, s: Seq<char>) -> bool {
    rest.len() <= s.len() && rest == s.skip(s.len() - rest.len())
}

/// The longest run of ASCII letters and digits, which must not be empty.
pub open spec fn call_name_match(s: Seq<char>) -> Match {
    run_match(s, CharClass::Alphanumeric)
}

/// A parsed call as a value: its name and its arguments in order.
pub struct CallView {
    pub name: Seq<char>,
    pub args: Seq<Seq<char>>,
}

/// A name followed by its arguments.
pub open spec fn call_match(s: Seq<char>) -> Option<(Seq<char>, CallView)> {
    match call_name_match(s) {
        Some((rest, name)) => {
            let (end, args) = arguments_match(rest);
            Some((end, CallView { name, args }))
        },
        None => None,
    }
}

} // verus!
